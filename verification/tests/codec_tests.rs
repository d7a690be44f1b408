use lit::codec::{decode_config, decode_config_or_empty, encode_config};
use lit::config::Config;

fn store_with(entries: &[(&str, &str, &str)]) -> Config {
    let mut c = Config::new();
    for (name, user_name, user_email) in entries {
        c.add(name.to_string(), user_name.to_string(), user_email.to_string());
    }
    c
}

fn assert_same_store(a: &Config, b: &Config) {
    assert_eq!(a.list_names(), b.list_names());
    assert_eq!(a.current_profile, b.current_profile);
    for name in a.list_names() {
        let ga = a.get(&name).unwrap();
        let gb = b.get(&name).unwrap();
        assert_eq!(ga.user_name, gb.user_name);
        assert_eq!(ga.user_email, gb.user_email);
    }
}

#[test]
fn round_trip_of_empty_store() {
    let c = Config::new();
    let text = encode_config(&c);
    let back = decode_config(&text).unwrap();
    assert_same_store(&c, &back);
}

#[test]
fn round_trip_of_plain_store() {
    let c = store_with(&[("work", "Alice", "alice@x.com"), ("home", "Al", "al@h.org")]);
    let text = encode_config(&c);
    let back = decode_config(&text).unwrap();
    assert_same_store(&c, &back);
}

#[test]
fn round_trip_keeps_active_marker() {
    let mut c = store_with(&[("work", "Alice", "alice@x.com"), ("home", "Al", "al@h.org")]);
    assert!(c.set_current(&"home".to_string()));
    let text = encode_config(&c);
    let back = decode_config(&text).unwrap();
    assert_same_store(&c, &back);
    assert_eq!(back.current_profile, Some("home".to_string()));
}

#[test]
fn round_trip_survives_delimiter_characters_in_values() {
    // names and fields may hold the very characters the format uses
    let c = store_with(&[
        ("we;rd:1", "A 2:3;4", "a@x;y:z"),
        ("12345", "", "only@email"),
        ("", "empty name", "e@e"),
    ]);
    let text = encode_config(&c);
    let back = decode_config(&text).unwrap();
    assert_same_store(&c, &back);
}

#[test]
fn encoding_is_the_documented_format() {
    let c = store_with(&[("work", "Alice", "alice@x.com")]);
    let text = encode_config(&c);
    assert_eq!(text, "-1;4:work5:Alice11:alice@x.com");
}

#[test]
fn decode_of_corrupt_text_fails_softly() {
    for bad in [
        "",
        "garbage",
        "-",
        "-2;4:work5:Alice11:alice@x.com", // count says two entries, text has one
        "-1;4:work5:Alice11:alice@x.comEXTRA", // trailing garbage
        "-1;9999:work5:Alice11:alice@x.com", // length runs past the end
        "+3:who0;", // active marker names no stored profile
        "-01;4:work5:Alice11:alice@x.com", // leading zero in a count
        "-2;1:a1:b1:c1:a1:d1:e", // duplicate profile names
        "-1;4:work5:Alice11", // truncated
    ] {
        assert!(decode_config(bad).is_none());
        let c = decode_config_or_empty(bad);
        assert_eq!(c.profiles.len(), 0);
        assert!(c.current_profile.is_none());
    }
}

#[test]
fn decoded_text_reencodes_identically() {
    // the format is canonical: saving what was loaded writes the same file
    let mut c = store_with(&[("work", "Alice", "alice@x.com"), ("home", "B", "b@b")]);
    assert!(c.set_current(&"work".to_string()));
    let text = encode_config(&c);
    let back = decode_config(&text).unwrap();
    assert_eq!(encode_config(&back), text);
}

#[test]
fn decode_or_empty_returns_the_store_on_good_text() {
    let c = store_with(&[("work", "Alice", "alice@x.com")]);
    let text = encode_config(&c);
    let back = decode_config_or_empty(&text);
    assert_same_store(&c, &back);
}
