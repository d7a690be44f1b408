//! The persistence format for the profile store, as verified functions on
//! text: every stored string is written as its decimal character count, a
//! `:`, and the characters themselves, so no character needs escaping. A
//! store is the active-profile marker (`-`, or `+` and a name), the entry
//! count, a `;`, and the entries, each three strings (name, user name,
//! email).
//!
//! [`encode_config`] and [`decode_config`] follow the spec-level
//! [`spec_encode`] and [`spec_decode`] exactly, and
//! [`lemma_encode_decode_round_trip`] proves that decoding an encoded
//! well-formed store gives it back.

use vstd::prelude::*;
use vstd::arithmetic::div_mod::{
    lemma_div_is_strictly_smaller, lemma_fundamental_div_mod, lemma_fundamental_div_mod_converse,
};
use vstd::string::*;

use crate::config::{Config, ConfigV, GitConfig, GitConfigV, ProfileEntry, ProfileEntryV};
use crate::text::string_push;

verus! {

/// Whether `c` is a decimal digit.
pub open spec fn is_digit(c: char) -> bool {
    c == '0' || c == '1' || c == '2' || c == '3' || c == '4' || c == '5' || c == '6' || c == '7'
        || c == '8' || c == '9'
}

/// The digit character for a value below ten.
pub open spec fn digit_char(d: nat) -> char {
    if d == 0 {
        '0'
    } else if d == 1 {
        '1'
    } else if d == 2 {
        '2'
    } else if d == 3 {
        '3'
    } else if d == 4 {
        '4'
    } else if d == 5 {
        '5'
    } else if d == 6 {
        '6'
    } else if d == 7 {
        '7'
    } else if d == 8 {
        '8'
    } else {
        '9'
    }
}

/// The value of a digit character.
pub open spec fn digit_val(c: char) -> nat {
    if c == '0' {
        0
    } else if c == '1' {
        1
    } else if c == '2' {
        2
    } else if c == '3' {
        3
    } else if c == '4' {
        4
    } else if c == '5' {
        5
    } else if c == '6' {
        6
    } else if c == '7' {
        7
    } else if c == '8' {
        8
    } else {
        9
    }
}

/// The decimal digits of `n`, most significant first, no leading zeros.
pub open spec fn enc_nat(n: nat) -> Seq<char>
    decreases n,
{
    if n < 10 {
        seq![digit_char(n)]
    } else {
        enc_nat(n / 10).push(digit_char(n % 10))
    }
}

/// A length-prefixed string: the character count, `:`, the characters.
pub open spec fn enc_str(s: Seq<char>) -> Seq<char> {
    enc_nat(s.len()) + seq![':'] + s
}

/// One stored entry: its name, user name and email, each length-prefixed.
pub open spec fn enc_entry(e: ProfileEntryV) -> Seq<char> {
    enc_str(e.name) + enc_str(e.git.user_name) + enc_str(e.git.user_email)
}

/// All entries, in store order.
pub open spec fn enc_entries(s: Seq<ProfileEntryV>) -> Seq<char>
    decreases s.len(),
{
    if s.len() == 0 {
        Seq::empty()
    } else {
        enc_entry(s.first()) + enc_entries(s.drop_first())
    }
}

/// The active-profile marker: `-` for none, `+` and the name otherwise.
pub open spec fn enc_current(c: Option<Seq<char>>) -> Seq<char> {
    match c {
        None => seq!['-'],
        Some(n) => seq!['+'] + enc_str(n),
    }
}

/// The whole persisted text of a store.
pub open spec fn spec_encode(c: ConfigV) -> Seq<char> {
    enc_current(c.current_profile) + enc_nat(c.profiles.len()) + seq![';'] + enc_entries(c.profiles)
}

/// Consumes leading digits, accumulating their value onto `acc`.
pub open spec fn parse_nat_loop(t: Seq<char>, acc: nat) -> (nat, Seq<char>)
    decreases t.len(),
{
    if t.len() > 0 && is_digit(t.first()) {
        parse_nat_loop(t.drop_first(), acc * 10 + digit_val(t.first()))
    } else {
        (acc, t)
    }
}

/// Reads a decimal number; fails unless the text starts with a digit, and
/// refuses a leading zero, so every number has exactly one written form.
pub open spec fn parse_nat(t: Seq<char>) -> Option<(nat, Seq<char>)> {
    if t.len() > 0 && is_digit(t.first()) && !(t.first() == '0' && t.len() > 1 && is_digit(
        t[1],
    )) {
        Some(parse_nat_loop(t, 0))
    } else {
        None
    }
}

/// Consumes one expected character.
pub open spec fn expect(t: Seq<char>, c: char) -> Option<Seq<char>> {
    if t.len() > 0 && t.first() == c {
        Some(t.drop_first())
    } else {
        None
    }
}

/// Consumes exactly `k` characters.
pub open spec fn parse_take(t: Seq<char>, k: nat) -> Option<(Seq<char>, Seq<char>)> {
    if t.len() >= k {
        Some((t.take(k as int), t.skip(k as int)))
    } else {
        None
    }
}

/// Reads one length-prefixed string.
pub open spec fn parse_str(t: Seq<char>) -> Option<(Seq<char>, Seq<char>)> {
    match parse_nat(t) {
        Some((k, r1)) => match expect(r1, ':') {
            Some(r2) => parse_take(r2, k),
            None => None,
        },
        None => None,
    }
}

/// Reads exactly `k` entries of three strings each.
pub open spec fn parse_entries(t: Seq<char>, k: nat) -> Option<(Seq<ProfileEntryV>, Seq<char>)>
    decreases k,
{
    if k == 0 {
        Some((Seq::empty(), t))
    } else {
        match parse_str(t) {
            Some((name, r1)) => match parse_str(r1) {
                Some((user_name, r2)) => match parse_str(r2) {
                    Some((user_email, r3)) => match parse_entries(r3, (k - 1) as nat) {
                        Some((rest, r4)) => Some(
                            (
                                seq![
                                    ProfileEntryV {
                                        name,
                                        git: GitConfigV { user_name, user_email },
                                    },
                                ] + rest,
                                r4,
                            ),
                        ),
                        None => None,
                    },
                    None => None,
                },
                None => None,
            },
            None => None,
        }
    }
}

/// Reads the active-profile marker.
pub open spec fn parse_current(t: Seq<char>) -> Option<(Option<Seq<char>>, Seq<char>)> {
    if t.len() > 0 && t.first() == '-' {
        Some((None, t.drop_first()))
    } else if t.len() > 0 && t.first() == '+' {
        match parse_str(t.drop_first()) {
            Some((n, r)) => Some((Some(n), r)),
            None => None,
        }
    } else {
        None
    }
}

/// The store a persisted text denotes: `None` on any malformed text, on
/// trailing garbage, and on a store that is not well-formed.
pub open spec fn spec_decode(t: Seq<char>) -> Option<ConfigV> {
    match parse_current(t) {
        Some((cur, r1)) => match parse_nat(r1) {
            Some((k, r2)) => match expect(r2, ';') {
                Some(r3) => match parse_entries(r3, k) {
                    Some((entries, r4)) => if r4.len() == 0 {
                        let c = ConfigV { profiles: entries, current_profile: cur };
                        if c.wf() {
                            Some(c)
                        } else {
                            None
                        }
                    } else {
                        None
                    },
                    None => None,
                },
                None => None,
            },
            None => None,
        },
        None => None,
    }
}

/// How many decimal digits `enc_nat` writes.
pub open spec fn ndigits(n: nat) -> nat
    decreases n,
{
    if n < 10 {
        1
    } else {
        ndigits(n / 10) + 1
    }
}

/// Ten to the `k`.
pub open spec fn pow10(k: nat) -> nat
    decreases k,
{
    if k == 0 {
        1
    } else {
        10 * pow10((k - 1) as nat)
    }
}

/// `enc_nat` is never empty, starts with a digit, and has no leading zero:
/// only zero itself starts with `0`, and it is a single character.
proof fn lemma_enc_nat_first_digit(n: nat)
    ensures
        enc_nat(n).len() >= 1,
        is_digit(enc_nat(n).first()),
        n < 10 ==> enc_nat(n).len() == 1,
        n >= 10 ==> enc_nat(n).first() != '0',
    decreases n,
{
    if n >= 10 {
        lemma_enc_nat_first_digit(n / 10);
        assert(enc_nat(n).first() == enc_nat(n / 10).first());
        if n / 10 < 10 {
            assert(n / 10 >= 1);
            assert(digit_char(n / 10) != '0');
        }
    }
}

/// Consuming the digits of `enc_nat(n)` shifts the accumulator by the digit
/// count and adds `n`.
proof fn lemma_parse_nat_loop_shift(n: nat, rest: Seq<char>, acc: nat)
    ensures
        parse_nat_loop(enc_nat(n) + rest, acc) == parse_nat_loop(
            rest,
            acc * pow10(ndigits(n)) + n,
        ),
    decreases n,
{
    if n < 10 {
        let t = enc_nat(n) + rest;
        assert(t.first() == digit_char(n));
        assert(is_digit(digit_char(n)));
        assert(digit_val(digit_char(n)) == n);
        assert(t.drop_first() =~= rest);
        assert(pow10(1) == 10 * pow10(0));
    } else {
        let d = n % 10;
        let m = n / 10;
        lemma_fundamental_div_mod(n as int, 10);
        assert(n == 10 * m + d);
        assert(enc_nat(n) == enc_nat(m).push(digit_char(d)));
        let tail = seq![digit_char(d)] + rest;
        assert(enc_nat(n) + rest =~= enc_nat(m) + tail);
        lemma_parse_nat_loop_shift(m, tail, acc);
        let a2 = acc * pow10(ndigits(m)) + m;
        assert(tail.first() == digit_char(d));
        assert(is_digit(digit_char(d)));
        assert(digit_val(digit_char(d)) == d);
        assert(tail.drop_first() =~= rest);
        assert(parse_nat_loop(tail, a2) == parse_nat_loop(rest, a2 * 10 + d));
        assert(ndigits(n) == ndigits(m) + 1);
        assert(pow10(ndigits(n)) == 10 * pow10(ndigits(m)));
        assert(a2 * 10 + d == acc * pow10(ndigits(n)) + n) by (nonlinear_arith)
            requires
                a2 == acc * pow10(ndigits(m)) + m,
                n == 10 * m + d,
                pow10(ndigits(n)) == 10 * pow10(ndigits(m)),
        ;
    }
}

/// Parsing a number from `enc_nat(n)` followed by non-digit text yields `n`
/// and that text.
proof fn lemma_parse_nat_enc(n: nat, rest: Seq<char>)
    requires
        rest.len() == 0 || !is_digit(rest.first()),
    ensures
        parse_nat(enc_nat(n) + rest) == Some((n, rest)),
{
    let t = enc_nat(n) + rest;
    lemma_enc_nat_first_digit(n);
    assert(t.first() == enc_nat(n).first());
    // no leading zero: only `0` itself starts with '0', and then the next
    // character is the non-digit rest
    if t.first() == '0' {
        assert(n < 10);
        assert(n == 0);
        assert(enc_nat(n).len() == 1);
        if t.len() > 1 {
            assert(t[1] == rest[0]);
            assert(!is_digit(t[1]));
        }
    }
    lemma_parse_nat_loop_shift(n, rest, 0);
    assert(0 * pow10(ndigits(n)) + n == n);
    assert(parse_nat_loop(rest, n) == (n, rest));
}

/// Parsing a string from `enc_str(s)` followed by anything yields `s` and
/// the rest.
proof fn lemma_parse_str_enc(s: Seq<char>, rest: Seq<char>)
    ensures
        parse_str(enc_str(s) + rest) == Some((s, rest)),
{
    let after = seq![':'] + s + rest;
    assert(enc_str(s) + rest =~= enc_nat(s.len()) + after);
    assert(after.first() == ':');
    lemma_parse_nat_enc(s.len(), after);
    assert(parse_nat(enc_str(s) + rest) == Some((s.len(), after)));
    assert(after.drop_first() =~= s + rest);
    assert(expect(after, ':') == Some(s + rest));
    assert((s + rest).len() >= s.len());
    assert((s + rest).take(s.len() as int) =~= s);
    assert((s + rest).skip(s.len() as int) =~= rest);
}

/// Appending one entry to the encoding appends its text.
proof fn lemma_enc_entries_push(s: Seq<ProfileEntryV>, e: ProfileEntryV)
    ensures
        enc_entries(s.push(e)) == enc_entries(s) + enc_entry(e),
    decreases s.len(),
{
    if s.len() == 0 {
        let t = s.push(e);
        assert(t.len() == 1);
        assert(t.first() == e);
        assert(t.drop_first() =~= Seq::<ProfileEntryV>::empty());
        assert(t.drop_first() == Seq::<ProfileEntryV>::empty());
        assert(enc_entries(Seq::<ProfileEntryV>::empty()) == Seq::<char>::empty());
        assert(enc_entries(t) == enc_entry(e) + Seq::<char>::empty());
        assert(enc_entry(e) + Seq::<char>::empty() =~= enc_entry(e));
        assert(enc_entries(s) == Seq::<char>::empty());
        assert(enc_entries(s) + enc_entry(e) =~= enc_entry(e));
    } else {
        assert(s.push(e).first() == s.first());
        assert(s.push(e).drop_first() =~= s.drop_first().push(e));
        lemma_enc_entries_push(s.drop_first(), e);
        assert(enc_entries(s.push(e)) == enc_entry(s.first()) + (enc_entries(s.drop_first())
            + enc_entry(e)));
        assert(enc_entry(s.first()) + (enc_entries(s.drop_first()) + enc_entry(e)) =~= (enc_entry(
            s.first(),
        ) + enc_entries(s.drop_first())) + enc_entry(e));
    }
}

/// Parsing `s.len()` entries from their encoding followed by anything yields
/// `s` and the rest.
proof fn lemma_parse_entries_enc(s: Seq<ProfileEntryV>, rest: Seq<char>)
    ensures
        parse_entries(enc_entries(s) + rest, s.len()) == Some((s, rest)),
    decreases s.len(),
{
    if s.len() == 0 {
        assert(enc_entries(s) + rest =~= rest);
        assert(Seq::<ProfileEntryV>::empty() =~= s);
    } else {
        let e = s.first();
        let r1 = enc_str(e.git.user_name) + enc_str(e.git.user_email) + enc_entries(
            s.drop_first(),
        ) + rest;
        assert(enc_entries(s) + rest =~= enc_str(e.name) + r1);
        lemma_parse_str_enc(e.name, r1);
        let r2 = enc_str(e.git.user_email) + enc_entries(s.drop_first()) + rest;
        assert(r1 =~= enc_str(e.git.user_name) + r2);
        lemma_parse_str_enc(e.git.user_name, r2);
        let r3 = enc_entries(s.drop_first()) + rest;
        assert(r2 =~= enc_str(e.git.user_email) + r3);
        lemma_parse_str_enc(e.git.user_email, r3);
        lemma_parse_entries_enc(s.drop_first(), rest);
        let rebuilt = ProfileEntryV {
            name: e.name,
            git: GitConfigV { user_name: e.git.user_name, user_email: e.git.user_email },
        };
        assert(rebuilt =~~= e);
        assert(seq![rebuilt] + s.drop_first() =~= s);
    }
}

/// Law: decoding the encoding of a well-formed store yields that store. With
/// `decode_config`'s and `encode_config`'s contracts this is the store-level
/// round trip: what was saved loads back unchanged.
pub proof fn lemma_encode_decode_round_trip(c: ConfigV)
    requires
        c.wf(),
    ensures
        spec_decode(spec_encode(c)) == Some(c),
{
    let t = spec_encode(c);
    let body = enc_nat(c.profiles.len()) + seq![';'] + enc_entries(c.profiles);
    match c.current_profile {
        None => {
            assert(t.first() == '-');
            assert(t.drop_first() =~= body);
            assert(parse_current(t) == Some((None::<Seq<char>>, body)));
        },
        Some(n) => {
            assert(t.first() == '+');
            assert(t.drop_first() =~= enc_str(n) + body);
            lemma_parse_str_enc(n, body);
            assert(parse_current(t) == Some((Some(n), body)));
        },
    }
    let after_count = seq![';'] + enc_entries(c.profiles);
    assert(body =~= enc_nat(c.profiles.len()) + after_count);
    assert(after_count.first() == ';');
    lemma_parse_nat_enc(c.profiles.len(), after_count);
    assert(after_count.drop_first() =~= enc_entries(c.profiles));
    assert(expect(after_count, ';') == Some(enc_entries(c.profiles)));
    assert(enc_entries(c.profiles) =~= enc_entries(c.profiles) + Seq::<char>::empty());
    lemma_parse_entries_enc(c.profiles, Seq::empty());
    assert(parse_entries(enc_entries(c.profiles), c.profiles.len()) == Some(
        (c.profiles, Seq::<char>::empty()),
    ));
    assert(ConfigV { profiles: c.profiles, current_profile: c.current_profile } =~~= c);
}

/// The run of digit characters at the head of the text.
spec fn digits_prefix(t: Seq<char>) -> Seq<char>
    decreases t.len(),
{
    if t.len() > 0 && is_digit(t.first()) {
        seq![t.first()] + digits_prefix(t.drop_first())
    } else {
        Seq::empty()
    }
}

/// The value of a digit run folded onto an accumulator, as parsing folds it.
spec fn fold_val(acc: nat, ds: Seq<char>) -> nat
    decreases ds.len(),
{
    if ds.len() == 0 {
        acc
    } else {
        fold_val(acc * 10 + digit_val(ds.first()), ds.drop_first())
    }
}

/// What `parse_nat_loop` consumes and returns, in terms of the digit run at
/// the head of the text.
proof fn lemma_parse_nat_loop_form(t: Seq<char>, acc: nat)
    ensures
        digits_prefix(t).len() <= t.len(),
        t.take(digits_prefix(t).len() as int) == digits_prefix(t),
        parse_nat_loop(t, acc) == (
            fold_val(acc, digits_prefix(t)),
            t.skip(digits_prefix(t).len() as int),
        ),
        forall|i: int| 0 <= i < digits_prefix(t).len() ==> is_digit(#[trigger] digits_prefix(t)[i]),
    decreases t.len(),
{
    if t.len() > 0 && is_digit(t.first()) {
        let acc2 = acc * 10 + digit_val(t.first());
        lemma_parse_nat_loop_form(t.drop_first(), acc2);
        let dp = digits_prefix(t);
        let dp1 = digits_prefix(t.drop_first());
        assert(dp == seq![t.first()] + dp1);
        assert(dp.drop_first() =~= dp1);
        assert(t.take(dp.len() as int) =~= seq![t.first()] + t.drop_first().take(
            dp1.len() as int,
        ));
        assert(t.skip(dp.len() as int) =~= t.drop_first().skip(dp1.len() as int));
        assert(fold_val(acc, dp) == fold_val(acc2, dp1));
    }
}

/// Ten to any power is positive.
proof fn lemma_pow10_pos(k: nat)
    ensures
        pow10(k) >= 1,
    decreases k,
{
    if k > 0 {
        lemma_pow10_pos((k - 1) as nat);
        assert(10 * pow10((k - 1) as nat) >= 1) by (nonlinear_arith)
            requires
                pow10((k - 1) as nat) >= 1,
        ;
    }
}

/// Folding digits never shrinks the accumulator: the result is at least the
/// accumulator scaled by ten once per digit.
proof fn lemma_fold_val_lower(acc: nat, ds: Seq<char>)
    ensures
        fold_val(acc, ds) >= acc * pow10(ds.len()),
    decreases ds.len(),
{
    if ds.len() == 0 {
        assert(acc * 1 == acc) by (nonlinear_arith);
    } else {
        let acc2 = acc * 10 + digit_val(ds.first());
        lemma_fold_val_lower(acc2, ds.drop_first());
        assert(pow10(ds.len()) == 10 * pow10((ds.len() - 1) as nat));
        lemma_pow10_pos((ds.len() - 1) as nat);
        assert(acc2 * pow10((ds.len() - 1) as nat) >= acc * pow10(ds.len())) by (nonlinear_arith)
            requires
                acc2 >= acc * 10,
                pow10(ds.len()) == 10 * pow10((ds.len() - 1) as nat),
                pow10((ds.len() - 1) as nat) >= 1,
        ;
    }
}

/// Folding one more digit multiplies by ten and adds it.
proof fn lemma_fold_val_push(acc: nat, ds: Seq<char>, x: char)
    ensures
        fold_val(acc, ds.push(x)) == fold_val(acc, ds) * 10 + digit_val(x),
    decreases ds.len(),
{
    if ds.len() == 0 {
        assert(ds.push(x).first() == x);
        assert(ds.push(x).drop_first() =~= Seq::<char>::empty());
        assert(fold_val(acc, ds.push(x)) == fold_val(
            acc * 10 + digit_val(x),
            ds.push(x).drop_first(),
        ));
        assert(fold_val(acc * 10 + digit_val(x), Seq::<char>::empty()) == acc * 10 + digit_val(
            x,
        ));
    } else {
        assert(ds.push(x).first() == ds.first());
        assert(ds.push(x).drop_first() =~= ds.drop_first().push(x));
        let acc2 = acc * 10 + digit_val(ds.first());
        lemma_fold_val_push(acc2, ds.drop_first(), x);
        assert(fold_val(acc, ds.push(x)) == fold_val(acc2, ds.drop_first().push(x)));
        assert(fold_val(acc, ds) == fold_val(acc2, ds.drop_first()));
    }
}

/// A digit run without a leading zero is exactly how `enc_nat` writes its
/// value: the decimal form is unique.
proof fn lemma_enc_of_digit_run(ds: Seq<char>)
    requires
        ds.len() >= 1,
        forall|i: int| 0 <= i < ds.len() ==> is_digit(#[trigger] ds[i]),
        ds.len() == 1 || ds.first() != '0',
    ensures
        enc_nat(fold_val(0, ds)) == ds,
    decreases ds.len(),
{
    if ds.len() == 1 {
        let d = ds.first();
        assert(is_digit(d));
        assert(ds.drop_first() =~= Seq::<char>::empty());
        assert(fold_val(0, ds) == fold_val(0 * 10 + digit_val(d), ds.drop_first()));
        assert(fold_val(digit_val(d), Seq::<char>::empty()) == digit_val(d));
        assert(fold_val(0, ds) == digit_val(d));
        assert(digit_char(digit_val(d)) == d);
        assert(enc_nat(digit_val(d)) =~= ds);
    } else {
        let ds0 = ds.drop_last();
        let x = ds.last();
        assert(ds =~= ds0.push(x));
        lemma_fold_val_push(0, ds0, x);
        let v0 = fold_val(0, ds0);
        let v = fold_val(0, ds);
        assert(v == v0 * 10 + digit_val(x));
        // the leading digit is nonzero, so the prefix value is at least one
        assert(ds0.first() == ds.first());
        assert(digit_val(ds0.first()) >= 1);
        assert(fold_val(0, ds0) == fold_val(digit_val(ds0.first()), ds0.drop_first()));
        lemma_fold_val_lower(digit_val(ds0.first()), ds0.drop_first());
        lemma_pow10_pos(ds0.drop_first().len());
        assert(digit_val(ds0.first()) * pow10(ds0.drop_first().len()) >= 1) by (nonlinear_arith)
            requires
                digit_val(ds0.first()) >= 1,
                pow10(ds0.drop_first().len()) >= 1,
        ;
        assert(v0 >= 1);
        assert(v >= 10) by (nonlinear_arith)
            requires
                v == v0 * 10 + digit_val(x),
                v0 >= 1,
        ;
        lemma_fundamental_div_mod_converse(v as int, 10, v0 as int, digit_val(x) as int);
        assert(v / 10 == v0);
        assert(v % 10 == digit_val(x));
        lemma_enc_of_digit_run(ds0);
        assert(enc_nat(v) == enc_nat(v0).push(digit_char(digit_val(x))));
        assert(digit_char(digit_val(x)) == x);
        assert(enc_nat(v) == ds0.push(x));
    }
}

/// A successfully parsed number reads back from exactly its canonical text.
proof fn lemma_parse_nat_inverse(t: Seq<char>)
    requires
        parse_nat(t) is Some,
    ensures
        ({
            let (v, r) = parse_nat(t)->Some_0;
            t == enc_nat(v) + r
        }),
{
    let (v, r) = parse_nat(t)->Some_0;
    lemma_parse_nat_loop_form(t, 0);
    let dp = digits_prefix(t);
    assert(dp.len() >= 1);
    assert(dp == t.take(dp.len() as int));
    assert(dp.first() == t.first());
    if dp.first() == '0' && dp.len() > 1 {
        assert(dp[1] == t[1]);
        assert(is_digit(t[1]));
        assert(false);
    }
    lemma_enc_of_digit_run(dp);
    assert(v == fold_val(0, dp));
    assert(r == t.skip(dp.len() as int));
    assert(t =~= t.take(dp.len() as int) + t.skip(dp.len() as int));
}

/// A successfully parsed string reads back from exactly its canonical text.
proof fn lemma_parse_str_inverse(t: Seq<char>)
    requires
        parse_str(t) is Some,
    ensures
        ({
            let (s, r) = parse_str(t)->Some_0;
            t == enc_str(s) + r
        }),
{
    let (v, r1) = parse_nat(t)->Some_0;
    lemma_parse_nat_inverse(t);
    let r2 = expect(r1, ':')->Some_0;
    assert(r1.first() == ':');
    assert(r1 =~= seq![':'] + r2);
    let (s, r) = parse_take(r2, v)->Some_0;
    assert(s.len() == v);
    assert(r2 =~= s + r);
    assert(t =~= enc_nat(v) + (seq![':'] + (s + r)));
    assert(enc_str(s) + r =~= enc_nat(s.len()) + (seq![':'] + (s + r)));
}

/// Successfully parsed entries read back from exactly their canonical text,
/// and their number is the count requested.
proof fn lemma_parse_entries_inverse(t: Seq<char>, k: nat)
    requires
        parse_entries(t, k) is Some,
    ensures
        ({
            let (es, r) = parse_entries(t, k)->Some_0;
            t == enc_entries(es) + r && es.len() == k
        }),
    decreases k,
{
    if k == 0 {
        assert(t =~= Seq::<char>::empty() + t);
    } else {
        let (name, r1) = parse_str(t)->Some_0;
        lemma_parse_str_inverse(t);
        let (un, r2) = parse_str(r1)->Some_0;
        lemma_parse_str_inverse(r1);
        let (ue, r3) = parse_str(r2)->Some_0;
        lemma_parse_str_inverse(r2);
        lemma_parse_entries_inverse(r3, (k - 1) as nat);
        let (rest, r4) = parse_entries(r3, (k - 1) as nat)->Some_0;
        let e = ProfileEntryV { name, git: GitConfigV { user_name: un, user_email: ue } };
        let es = seq![e] + rest;
        assert(es.first() == e);
        assert(es.drop_first() =~= rest);
        assert(enc_entries(es) == enc_entry(e) + enc_entries(rest));
        assert(t =~= enc_str(name) + (enc_str(un) + (enc_str(ue) + (enc_entries(rest) + r4))));
        assert(enc_entries(es) + r4 =~= enc_str(name) + (enc_str(un) + (enc_str(ue)
            + (enc_entries(rest) + r4))));
    }
}

/// A successfully parsed active-profile marker reads back from exactly its
/// canonical text.
proof fn lemma_parse_current_inverse(t: Seq<char>)
    requires
        parse_current(t) is Some,
    ensures
        ({
            let (cur, r) = parse_current(t)->Some_0;
            t == enc_current(cur) + r
        }),
{
    if t.len() > 0 && t.first() == '-' {
        assert(t =~= seq!['-'] + t.drop_first());
    } else {
        assert(t.first() == '+');
        lemma_parse_str_inverse(t.drop_first());
        let (nm, r) = parse_str(t.drop_first())->Some_0;
        assert(t =~= seq!['+'] + (enc_str(nm) + r));
        assert(enc_current(Some(nm)) + r =~= seq!['+'] + (enc_str(nm) + r));
    }
}

/// Law: any persisted text that decodes at all is exactly the encoding of
/// the store it decodes to. With the other direction this makes the format
/// canonical: loading a well-formed file and saving it again writes the
/// identical file.
pub proof fn lemma_decode_encode_round_trip(t: Seq<char>)
    requires
        spec_decode(t) is Some,
    ensures
        spec_encode(spec_decode(t)->Some_0) == t,
{
    let (cur, r1) = parse_current(t)->Some_0;
    lemma_parse_current_inverse(t);
    let (k, r2) = parse_nat(r1)->Some_0;
    lemma_parse_nat_inverse(r1);
    let r3 = expect(r2, ';')->Some_0;
    assert(r2.first() == ';');
    assert(r2 =~= seq![';'] + r3);
    let (es, r4) = parse_entries(r3, k)->Some_0;
    lemma_parse_entries_inverse(r3, k);
    assert(r4.len() == 0);
    assert(r3 =~= enc_entries(es) + r4);
    assert(r3 =~= enc_entries(es));
    let c = spec_decode(t)->Some_0;
    assert(c == ConfigV { profiles: es, current_profile: cur });
    assert(t =~= enc_current(cur) + (enc_nat(k) + (seq![';'] + enc_entries(es))));
    assert(spec_encode(c) =~= enc_current(cur) + (enc_nat(es.len()) + (seq![';'] + enc_entries(
        es,
    ))));
}

/// The parsed value is at least the accumulator handed in, and the remaining
/// text no longer than the text handed in.
proof fn lemma_parse_nat_loop_bounds(t: Seq<char>, acc: nat)
    ensures
        parse_nat_loop(t, acc).0 >= acc,
        parse_nat_loop(t, acc).1.len() <= t.len(),
    decreases t.len(),
{
    if t.len() > 0 && is_digit(t.first()) {
        let acc2 = acc * 10 + digit_val(t.first());
        assert(acc * 10 >= acc) by (nonlinear_arith);
        lemma_parse_nat_loop_bounds(t.drop_first(), acc2);
    }
}

/// A successful string parse consumes at least two characters.
proof fn lemma_parse_str_consumes(t: Seq<char>)
    requires
        parse_str(t) is Some,
    ensures
        (parse_str(t)->Some_0).1.len() + 2 <= t.len(),
{
    let (k, r1) = parse_nat(t)->Some_0;
    lemma_parse_nat_loop_bounds(t.drop_first(), digit_val(t.first()));
    assert(r1.len() <= t.len() - 1);
    let r2 = expect(r1, ':')->Some_0;
    assert(r2.len() == r1.len() - 1);
    let (s, r3) = parse_take(r2, k)->Some_0;
    assert(r3.len() <= r2.len());
}

/// More entries than characters cannot be parsed.
proof fn lemma_parse_entries_too_many(t: Seq<char>, k: nat)
    requires
        k > t.len(),
    ensures
        parse_entries(t, k) is None,
    decreases k,
{
    if parse_str(t) is Some {
        let (_, r1) = parse_str(t)->Some_0;
        lemma_parse_str_consumes(t);
        if parse_str(r1) is Some {
            let (_, r2) = parse_str(r1)->Some_0;
            lemma_parse_str_consumes(r1);
            if parse_str(r2) is Some {
                let (_, r3) = parse_str(r2)->Some_0;
                lemma_parse_str_consumes(r2);
                lemma_parse_entries_too_many(r3, (k - 1) as nat);
            }
        }
    }
}

/// Whether the number at the head of `t` parses to a value above `bound`.
spec fn parse_nat_exceeds(t: Seq<char>, bound: nat) -> bool {
    match parse_nat(t) {
        Some((v, _)) => v > bound,
        None => false,
    }
}

fn digit_value(c: char) -> (r: Option<u8>)
    ensures
        match r {
            Some(d) => is_digit(c) && d < 10 && d as nat == digit_val(c),
            None => !is_digit(c),
        },
{
    if c == '0' {
        Some(0)
    } else if c == '1' {
        Some(1)
    } else if c == '2' {
        Some(2)
    } else if c == '3' {
        Some(3)
    } else if c == '4' {
        Some(4)
    } else if c == '5' {
        Some(5)
    } else if c == '6' {
        Some(6)
    } else if c == '7' {
        Some(7)
    } else if c == '8' {
        Some(8)
    } else if c == '9' {
        Some(9)
    } else {
        None
    }
}

fn digit_to_char(d: u8) -> (r: char)
    requires
        d < 10,
    ensures
        r == digit_char(d as nat),
{
    if d == 0 {
        '0'
    } else if d == 1 {
        '1'
    } else if d == 2 {
        '2'
    } else if d == 3 {
        '3'
    } else if d == 4 {
        '4'
    } else if d == 5 {
        '5'
    } else if d == 6 {
        '6'
    } else if d == 7 {
        '7'
    } else if d == 8 {
        '8'
    } else {
        '9'
    }
}

fn push_nat(out: &mut String, n: usize)
    ensures
        final(out)@ == old(out)@ + enc_nat(n as nat),
    decreases n,
{
    if n < 10 {
        string_push(out, digit_to_char(n as u8));
        assert(final(out)@ =~= old(out)@ + enc_nat(n as nat));
    } else {
        proof {
            lemma_div_is_strictly_smaller(n as int, 10);
        }
        push_nat(out, n / 10);
        string_push(out, digit_to_char((n % 10) as u8));
        assert(final(out)@ =~= old(out)@ + enc_nat(n as nat));
    }
}

fn push_str_field(out: &mut String, s: &String)
    ensures
        final(out)@ == old(out)@ + enc_str(s@),
{
    push_nat(out, s.as_str().unicode_len());
    string_push(out, ':');
    out.append(s.as_str());
    assert(final(out)@ =~= old(out)@ + enc_str(s@));
}

/// Writes the store in the persistence format; the inverse of
/// [`decode_config`] on well-formed stores.
pub fn encode_config(config: &Config) -> (r: String)
    ensures
        r@ == spec_encode(config@),
{
    let mut out = String::new();
    match &config.current_profile {
        None => {
            string_push(&mut out, '-');
        },
        Some(n) => {
            string_push(&mut out, '+');
            push_str_field(&mut out, n);
        },
    }
    assert(out@ =~= enc_current(config@.current_profile));
    let len = config.profiles.len();
    push_nat(&mut out, len);
    string_push(&mut out, ';');
    let ghost header = out@;
    for i in 0..len
        invariant
            len == config.profiles.len(),
            header == enc_current(config@.current_profile) + enc_nat(config@.profiles.len())
                + seq![';'],
            out@ == header + enc_entries(config@.profiles.take(i as int)),
    {
        proof {
            assert(config@.profiles.take(i as int).push(config@.profiles[i as int])
                =~= config@.profiles.take(i + 1));
            lemma_enc_entries_push(config@.profiles.take(i as int), config@.profiles[i as int]);
        }
        push_str_field(&mut out, &config.profiles[i].name);
        push_str_field(&mut out, &config.profiles[i].git.user_name);
        push_str_field(&mut out, &config.profiles[i].git.user_email);
        assert(out@ =~= header + enc_entries(config@.profiles.take(i + 1)));
    }
    proof {
        assert(config@.profiles.take(len as int) =~= config@.profiles);
        assert(out@ =~= spec_encode(config@));
    }
    out
}

fn parse_nat_at(text: &str, n: usize, pos: usize) -> (r: Option<(usize, usize)>)
    requires
        n == text@.len(),
        pos <= n,
    ensures
        match r {
            Some((v, p2)) => pos <= p2 <= n && v <= n && parse_nat(text@.skip(pos as int))
                == Some((v as nat, text@.skip(p2 as int))),
            None => parse_nat(text@.skip(pos as int)) is None || parse_nat_exceeds(
                text@.skip(pos as int),
                n as nat,
            ),
        },
{
    if pos >= n {
        assert(text@.skip(pos as int).len() == 0);
        return None;
    }
    let c0 = text.get_char(pos);
    proof {
        assert(text@.skip(pos as int).first() == text@[pos as int]);
    }
    if digit_value(c0).is_none() {
        return None;
    }
    if c0 == '0' && pos + 1 < n {
        let c1 = text.get_char(pos + 1);
        proof {
            assert(text@.skip(pos as int)[1] == text@[pos as int + 1]);
        }
        if digit_value(c1).is_some() {
            // a leading zero is not a well-formed number
            return None;
        }
    }
    proof {
        assert(parse_nat(text@.skip(pos as int)) == Some(parse_nat_loop(
            text@.skip(pos as int),
            0,
        )));
    }
    let mut p = pos;
    let mut acc: usize = 0;
    loop
        invariant
            n == text@.len(),
            pos <= p <= n,
            acc <= n,
            is_digit(text@[pos as int]),
            pos < n,
            parse_nat(text@.skip(pos as int)) == Some(parse_nat_loop(text@.skip(pos as int), 0)),
            parse_nat_loop(text@.skip(pos as int), 0) == parse_nat_loop(
                text@.skip(p as int),
                acc as nat,
            ),
        ensures
            pos <= p <= n,
            acc <= n,
            parse_nat_loop(text@.skip(pos as int), 0) == parse_nat_loop(
                text@.skip(p as int),
                acc as nat,
            ),
            p == n || !is_digit(text@[p as int]),
            parse_nat(text@.skip(pos as int)) == Some(parse_nat_loop(text@.skip(pos as int), 0)),
        decreases n - p,
    {
        if p >= n {
            break;
        }
        let c = text.get_char(p);
        proof {
            assert(text@.skip(p as int).first() == text@[p as int]);
            assert(text@.skip(p as int).drop_first() =~= text@.skip(p as int + 1));
        }
        match digit_value(c) {
            Some(d) => {
                let ghost next: nat = acc as nat * 10 + digit_val(c);
                proof {
                    assert(parse_nat_loop(text@.skip(p as int), acc as nat) == parse_nat_loop(
                        text@.skip(p as int + 1),
                        next,
                    ));
                    lemma_fundamental_div_mod(n as int, 10);
                }
                if acc > n / 10 {
                    proof {
                        assert(acc * 10 > n) by (nonlinear_arith)
                            requires
                                acc > n / 10,
                                n == 10 * (n / 10) + n % 10,
                                n % 10 < 10,
                        ;
                        lemma_parse_nat_loop_bounds(text@.skip(p as int + 1), next);
                        assert(parse_nat_loop(text@.skip(pos as int), 0).0 > n);
                    }
                    return None;
                }
                proof {
                    assert(acc * 10 <= n) by (nonlinear_arith)
                        requires
                            acc <= n / 10,
                            n == 10 * (n / 10) + n % 10,
                            0 <= n % 10,
                    ;
                }
                let acc10 = acc * 10;
                if (d as usize) > n - acc10 {
                    proof {
                        lemma_parse_nat_loop_bounds(text@.skip(p as int + 1), next);
                        assert(parse_nat_loop(text@.skip(pos as int), 0).0 > n);
                    }
                    return None;
                }
                acc = acc10 + (d as usize);
                p = p + 1;
            },
            None => {
                break;
            },
        }
    }
    proof {
        if p < n {
            assert(text@.skip(p as int).len() > 0);
            assert(text@.skip(p as int).first() == text@[p as int]);
        } else {
            assert(text@.skip(p as int).len() == 0);
        }
        assert(parse_nat_loop(text@.skip(p as int), acc as nat) == (acc as nat, text@.skip(
            p as int,
        )));
    }
    Some((acc, p))
}

fn parse_str_at(text: &str, n: usize, pos: usize) -> (r: Option<(String, usize)>)
    requires
        n == text@.len(),
        pos <= n,
    ensures
        match r {
            Some((s, p2)) => pos <= p2 <= n && parse_str(text@.skip(pos as int)) == Some(
                (s@, text@.skip(p2 as int)),
            ),
            None => parse_str(text@.skip(pos as int)) is None,
        },
{
    let ghost t = text@.skip(pos as int);
    match parse_nat_at(text, n, pos) {
        Some((v, p1)) => {
            if p1 >= n {
                assert(text@.skip(p1 as int).len() == 0);
                return None;
            }
            let c = text.get_char(p1);
            proof {
                assert(text@.skip(p1 as int).first() == text@[p1 as int]);
                assert(text@.skip(p1 as int).drop_first() =~= text@.skip(p1 as int + 1));
            }
            if c != ':' {
                return None;
            }
            // v characters must remain after the ':'
            if v > n - (p1 + 1) {
                assert(text@.skip(p1 as int + 1).len() < v as nat);
                return None;
            }
            let s = text.substring_char(p1 + 1, p1 + 1 + v).to_owned();
            proof {
                assert(text@.skip(p1 as int + 1).take(v as int) =~= text@.subrange(
                    p1 as int + 1,
                    p1 as int + 1 + v,
                ));
                assert(text@.skip(p1 as int + 1).skip(v as int) =~= text@.skip(
                    p1 as int + 1 + v,
                ));
            }
            Some((s, p1 + 1 + v))
        },
        None => {
            proof {
                if parse_nat(t) is Some {
                    // the length did not fit: it exceeds the whole text, so
                    // taking that many characters must fail
                    let (v, r1) = parse_nat(t)->Some_0;
                    lemma_parse_nat_loop_bounds(t.drop_first(), digit_val(t.first()));
                    assert(r1.len() <= t.len());
                    match expect(r1, ':') {
                        Some(r2) => {
                            assert(r2.len() < v);
                        },
                        None => {},
                    }
                }
            }
            None
        },
    }
}

fn parse_current_at(text: &str, n: usize) -> (r: Option<(Option<String>, usize)>)
    requires
        n == text@.len(),
    ensures
        match r {
            Some((cur, p2)) => p2 <= n && parse_current(text@) == Some(
                (
                    match cur {
                        Some(s) => Some(s@),
                        None => None,
                    },
                    text@.skip(p2 as int),
                ),
            ),
            None => parse_current(text@) is None,
        },
{
    if n == 0 {
        return None;
    }
    let c = text.get_char(0);
    proof {
        assert(text@.skip(0).first() == text@[0]);
        assert(text@ =~= text@.skip(0));
        assert(text@.drop_first() =~= text@.skip(1));
    }
    if c == '-' {
        Some((None, 1))
    } else if c == '+' {
        match parse_str_at(text, n, 1) {
            Some((s, p2)) => Some((Some(s), p2)),
            None => None,
        }
    } else {
        None
    }
}

/// Reads a store back from its persisted text. Returns `None` on any
/// malformed text and on any store that is not well-formed; a decoded store
/// is always well-formed.
#[verifier::loop_isolation(false)]
pub fn decode_config(text: &str) -> (r: Option<Config>)
    ensures
        match r {
            Some(c) => spec_decode(text@) == Some(c@) && c@.wf(),
            None => spec_decode(text@) is None,
        },
{
    let n = text.unicode_len();
    let (cur, p1) = match parse_current_at(text, n) {
        Some(x) => x,
        None => {
            return None;
        },
    };
    let ghost cur_v: Option<Seq<char>> = match &cur {
        Some(s) => Some(s@),
        None => None,
    };
    let (k, p2) = match parse_nat_at(text, n, p1) {
        Some(x) => x,
        None => {
            proof {
                let r1 = text@.skip(p1 as int);
                if parse_nat(r1) is Some {
                    let (v, r2) = parse_nat(r1)->Some_0;
                    assert(v > n);
                    lemma_parse_nat_loop_bounds(r1.drop_first(), digit_val(r1.first()));
                    assert(r2.len() <= r1.len());
                    match expect(r2, ';') {
                        Some(r3) => {
                            lemma_parse_entries_too_many(r3, v);
                        },
                        None => {},
                    }
                }
            }
            return None;
        },
    };
    if p2 >= n {
        assert(text@.skip(p2 as int).len() == 0);
        return None;
    }
    let semi = text.get_char(p2);
    proof {
        assert(text@.skip(p2 as int).first() == text@[p2 as int]);
        assert(text@.skip(p2 as int).drop_first() =~= text@.skip(p2 as int + 1));
    }
    if semi != ';' {
        return None;
    }
    let p3 = p2 + 1;
    let mut profiles: Vec<ProfileEntry> = Vec::new();
    let mut p = p3;
    let ghost entries_total = parse_entries(text@.skip(p3 as int), k as nat);
    for j in 0..k
        invariant
            n == text@.len(),
            p3 <= p <= n,
            j <= k,
            entries_total == parse_entries(text@.skip(p3 as int), k as nat),
            entries_total == match parse_entries(text@.skip(p as int), (k - j) as nat) {
                Some((es, rr)) => Some(
                    (profiles@.map_values(|e: ProfileEntry| e@) + es, rr),
                ),
                None => None::<(Seq<ProfileEntryV>, Seq<char>)>,
            },
    {
        let ghost before = profiles@.map_values(|e: ProfileEntry| e@);
        let (name, q1) = match parse_str_at(text, n, p) {
            Some(x) => x,
            None => {
                proof {
                    assert(parse_entries(text@.skip(p as int), (k - j) as nat) is None);
                    assert(entries_total is None);
                    assert(spec_decode(text@) is None);
                }
                return None;
            },
        };
        let (user_name, q2) = match parse_str_at(text, n, q1) {
            Some(x) => x,
            None => {
                proof {
                    assert(parse_entries(text@.skip(p as int), (k - j) as nat) is None);
                    assert(entries_total is None);
                    assert(spec_decode(text@) is None);
                }
                return None;
            },
        };
        let (user_email, q3) = match parse_str_at(text, n, q2) {
            Some(x) => x,
            None => {
                proof {
                    assert(parse_entries(text@.skip(p as int), (k - j) as nat) is None);
                    assert(entries_total is None);
                    assert(spec_decode(text@) is None);
                }
                return None;
            },
        };
        let entry = ProfileEntry {
            name,
            git: GitConfig { user_name, user_email },
        };
        proof {
            assert(parse_entries(text@.skip(p as int), (k - j) as nat) == match parse_entries(
                text@.skip(q3 as int),
                (k - j - 1) as nat,
            ) {
                Some((es, rr)) => Some((seq![entry@] + es, rr)),
                None => None::<(Seq<ProfileEntryV>, Seq<char>)>,
            });
        }
        profiles.push(entry);
        p = q3;
        proof {
            assert(profiles@.map_values(|e: ProfileEntry| e@) =~= before.push(entry@));
            if parse_entries(text@.skip(q3 as int), (k - j - 1) as nat) is Some {
                let (es, rr) = parse_entries(text@.skip(q3 as int), (k - j - 1) as nat)->Some_0;
                assert(before + (seq![entry@] + es) =~= before.push(entry@) + es);
            }
        }
    }
    proof {
        assert(parse_entries(text@.skip(p as int), 0) == Some(
            (Seq::<ProfileEntryV>::empty(), text@.skip(p as int)),
        ));
        assert(profiles@.map_values(|e: ProfileEntry| e@) + Seq::<ProfileEntryV>::empty()
            =~= profiles@.map_values(|e: ProfileEntry| e@));
    }
    if p < n {
        assert(text@.skip(p as int).len() > 0);
        return None;
    }
    assert(text@.skip(p as int).len() == 0);
    let candidate = Config { profiles, current_profile: cur };
    if candidate.wf_check() {
        Some(candidate)
    } else {
        None
    }
}

/// Reads a store back from its persisted text, substituting the empty store
/// for any malformed text: loading never fails the caller.
pub fn decode_config_or_empty(text: &str) -> (c: Config)
    ensures
        c@.wf(),
        match spec_decode(text@) {
            Some(v) => c@ == v,
            None => c@.profiles.len() == 0 && c@.current_profile is None,
        },
{
    match decode_config(text) {
        Some(c) => c,
        None => Config::new(),
    }
}

} // verus!
