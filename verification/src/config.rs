//! The profile store: a mapping from profile name to a git identity (user
//! name and email) plus an optional "currently active" marker. Names are kept
//! unique and in insertion order, so the lists shown to the selection cursors
//! are stable.

use vstd::prelude::*;

verus! {

/// The mathematical value of a [`GitConfig`]: the two identity fields as
/// character sequences.
#[verifier::ext_equal]
pub struct GitConfigV {
    pub user_name: Seq<char>,
    pub user_email: Seq<char>,
}

/// The mathematical value of a [`ProfileEntry`].
#[verifier::ext_equal]
pub struct ProfileEntryV {
    pub name: Seq<char>,
    pub git: GitConfigV,
}

/// The mathematical value of a [`Config`]: the stored entries in order, and
/// the active-profile marker.
#[verifier::ext_equal]
pub struct ConfigV {
    pub profiles: Seq<ProfileEntryV>,
    pub current_profile: Option<Seq<char>>,
}

impl ConfigV {
    /// The stored profile names, in store order.
    pub open spec fn names(self) -> Seq<Seq<char>> {
        self.profiles.map_values(|e: ProfileEntryV| e.name)
    }

    /// Whether some entry is stored under `name`.
    pub open spec fn has(self, name: Seq<char>) -> bool {
        exists|i: int| 0 <= i < self.profiles.len() && self.profiles[i].name == name
    }

    /// The position of the entry stored under `name` (meaningful only when
    /// `has(name)` holds; with unique names it is the one such position).
    pub open spec fn idx(self, name: Seq<char>) -> int {
        choose|i: int| 0 <= i < self.profiles.len() && self.profiles[i].name == name
    }

    /// Store well-formedness: names are unique, and the active marker, when
    /// set, refers to a stored name.
    pub open spec fn wf(self) -> bool {
        &&& forall|i: int, j: int|
            0 <= i < j < self.profiles.len() ==> self.profiles[i].name != self.profiles[j].name
        &&& match self.current_profile {
            Some(n) => self.has(n),
            None => true,
        }
    }

    /// What `add` does: overwrites the entry stored under `name`, or appends
    /// a new one; the active marker is untouched.
    pub open spec fn add_model(self, name: Seq<char>, user_name: Seq<char>, user_email: Seq<char>) -> ConfigV {
        let e = ProfileEntryV { name, git: GitConfigV { user_name, user_email } };
        if self.has(name) {
            ConfigV { profiles: self.profiles.update(self.idx(name), e), ..self }
        } else {
            ConfigV { profiles: self.profiles.push(e), ..self }
        }
    }

    /// What `update` does: replaces the identity fields of the entry stored
    /// under `name` in place; a no-op when `name` is absent.
    pub open spec fn update_model(self, name: Seq<char>, user_name: Seq<char>, user_email: Seq<char>) -> ConfigV {
        if self.has(name) {
            let e = ProfileEntryV { name, git: GitConfigV { user_name, user_email } };
            ConfigV { profiles: self.profiles.update(self.idx(name), e), ..self }
        } else {
            self
        }
    }

    /// What `remove` does: deletes the entry stored under `name` (later
    /// entries close the gap), clearing the active marker if it named it; a
    /// no-op when `name` is absent.
    pub open spec fn remove_model(self, name: Seq<char>) -> ConfigV {
        if self.has(name) {
            ConfigV {
                profiles: self.profiles.remove(self.idx(name)),
                current_profile: if self.current_profile == Some(name) {
                    None
                } else {
                    self.current_profile
                },
            }
        } else {
            self
        }
    }

    /// What `set_current` does: points the active marker at `name` when it is
    /// stored; a no-op when it is absent.
    pub open spec fn switch_model(self, name: Seq<char>) -> ConfigV {
        if self.has(name) {
            ConfigV { current_profile: Some(name), ..self }
        } else {
            self
        }
    }
}

/// With unique names, any position holding `name` is the position `idx(name)`
/// picks.
pub proof fn lemma_idx_unique(c: ConfigV, name: Seq<char>, i: int)
    requires
        c.wf(),
        0 <= i < c.profiles.len(),
        c.profiles[i].name == name,
    ensures
        c.has(name),
        c.idx(name) == i,
{
    assert(c.has(name));
    let j = c.idx(name);
    assert(0 <= j < c.profiles.len() && c.profiles[j].name == name);
    if i < j {
        assert(c.profiles[i].name != c.profiles[j].name);
    } else if j < i {
        assert(c.profiles[j].name != c.profiles[i].name);
    }
}

/// A name is in `names()` exactly when some entry is stored under it.
pub proof fn lemma_names_contains(c: ConfigV, name: Seq<char>)
    ensures
        c.names().contains(name) == c.has(name),
{
    if c.has(name) {
        let i = c.idx(name);
        assert(c.names()[i] == name);
        assert(c.names().contains(name));
    }
    if c.names().contains(name) {
        let i = choose|i: int| 0 <= i < c.names().len() && c.names()[i] == name;
        assert(c.profiles[i].name == name);
    }
}

/// Law: after deleting profile `name`, the listed names never include it, and
/// if it was the active profile the active marker is cleared.
pub proof fn lemma_remove_clears(c: ConfigV, name: Seq<char>)
    requires
        c.wf(),
    ensures
        !c.remove_model(name).names().contains(name),
        c.current_profile == Some(name) ==> c.remove_model(name).current_profile is None,
        c.remove_model(name).wf(),
{
    let r = c.remove_model(name);
    if c.has(name) {
        let k = c.idx(name);
        assert(0 <= k < c.profiles.len() && c.profiles[k].name == name);
        assert(r.profiles == c.profiles.remove(k));
        assert forall|i: int| 0 <= i < r.profiles.len() implies r.profiles[i].name != name by {
            if i < k {
                assert(r.profiles[i] == c.profiles[i]);
            } else {
                assert(r.profiles[i] == c.profiles[i + 1]);
            }
            if c.profiles[if i < k { i } else { i + 1 }].name == name {
                lemma_idx_unique(c, name, if i < k { i } else { i + 1 });
            }
        }
        lemma_names_contains(r, name);
        // uniqueness survives the removal
        assert forall|i: int, j: int|
            0 <= i < j < r.profiles.len() implies r.profiles[i].name != r.profiles[j].name by {
            let i0: int = if i < k { i } else { i + 1 };
            let j0: int = if j < k { j } else { j + 1 };
            assert(r.profiles[i] == c.profiles[i0]);
            assert(r.profiles[j] == c.profiles[j0]);
        }
        // the active marker still refers to a stored name, or was cleared
        match r.current_profile {
            Some(n) => {
                assert(c.current_profile == Some(n) && n != name);
                assert(c.has(n));
                let p = c.idx(n);
                assert(p != k);
                if p < k {
                    assert(r.profiles[p].name == n);
                } else {
                    assert(r.profiles[p - 1] == c.profiles[p]);
                }
                assert(r.has(n));
            },
            None => {},
        }
    } else {
        lemma_names_contains(c, name);
    }
}

/// One stored git identity: the user name and email a profile applies.
pub struct GitConfig {
    pub user_name: String,
    pub user_email: String,
}

impl View for GitConfig {
    type V = GitConfigV;

    open spec fn view(&self) -> GitConfigV {
        GitConfigV { user_name: self.user_name@, user_email: self.user_email@ }
    }
}

impl GitConfig {
    /// A copy with the same field values.
    pub fn duplicate(&self) -> (r: GitConfig)
        ensures
            r@ == self@,
    {
        GitConfig { user_name: self.user_name.clone(), user_email: self.user_email.clone() }
    }
}

/// One stored profile: its unique name and its git identity.
pub struct ProfileEntry {
    pub name: String,
    pub git: GitConfig,
}

impl View for ProfileEntry {
    type V = ProfileEntryV;

    open spec fn view(&self) -> ProfileEntryV {
        ProfileEntryV { name: self.name@, git: self.git@ }
    }
}

/// The profile store: entries in insertion order under unique names, plus the
/// optional active-profile marker.
pub struct Config {
    pub profiles: Vec<ProfileEntry>,
    pub current_profile: Option<String>,
}

impl View for Config {
    type V = ConfigV;

    open spec fn view(&self) -> ConfigV {
        ConfigV {
            profiles: self.profiles@.map_values(|e: ProfileEntry| e@),
            current_profile: match self.current_profile {
                Some(s) => Some(s@),
                None => None,
            },
        }
    }
}

impl Config {
    /// The empty store: no profiles, no active marker.
    pub fn new() -> (c: Config)
        ensures
            c@.profiles.len() == 0,
            c@.current_profile is None,
            c@.wf(),
    {
        let c = Config { profiles: Vec::new(), current_profile: None };
        proof {
            assert(c@.profiles =~= Seq::<ProfileEntryV>::empty());
        }
        c
    }

    /// The position of the entry stored under `name`, if any.
    pub fn find_index(&self, name: &String) -> (r: Option<usize>)
        requires
            self@.wf(),
        ensures
            match r {
                Some(i) => self@.has(name@) && i == self@.idx(name@),
                None => !self@.has(name@),
            },
    {
        let n = self.profiles.len();
        for i in 0..n
            invariant
                n == self.profiles.len(),
                self@.wf(),
                forall|j: int| 0 <= j < i ==> self@.profiles[j].name != name@,
        {
            if self.profiles[i].name == *name {
                proof {
                    lemma_idx_unique(self@, name@, i as int);
                }
                return Some(i);
            }
        }
        None
    }

    /// Whether some profile is stored under `name`.
    pub fn contains(&self, name: &String) -> (r: bool)
        requires
            self@.wf(),
        ensures
            r == self@.has(name@),
    {
        match self.find_index(name) {
            Some(_) => true,
            None => false,
        }
    }

    /// The identity stored under `name`, if any.
    pub fn get(&self, name: &String) -> (r: Option<&GitConfig>)
        requires
            self@.wf(),
        ensures
            match r {
                Some(g) => self@.has(name@) && g@ == self@.profiles[self@.idx(name@)].git,
                None => !self@.has(name@),
            },
    {
        match self.find_index(name) {
            Some(i) => Some(&self.profiles[i].git),
            None => None,
        }
    }

    /// Inserts the identity under `name`, overwriting any entry already
    /// stored there.
    pub fn add(&mut self, name: String, user_name: String, user_email: String)
        requires
            old(self)@.wf(),
        ensures
            final(self)@ == old(self)@.add_model(name@, user_name@, user_email@),
            final(self)@.wf(),
    {
        let ghost n = name@;
        let ghost un = user_name@;
        let ghost ue = user_email@;
        let ghost goal = self@.add_model(name@, user_name@, user_email@);
        let entry = ProfileEntry { name, git: GitConfig { user_name, user_email } };
        match self.find_index(&entry.name) {
            Some(i) => {
                self.profiles[i] = entry;
            },
            None => {
                self.profiles.push(entry);
            },
        }
        proof {
            assert(self@.profiles =~~= goal.profiles);
            assert(self@ =~~= goal);
            lemma_upsert_wf(old(self)@, n, un, ue);
        }
    }

    /// Replaces the identity fields of the entry stored under `name` in
    /// place; a no-op when `name` is absent.
    pub fn update(&mut self, name: &String, user_name: String, user_email: String) -> (changed: bool)
        requires
            old(self)@.wf(),
        ensures
            final(self)@ == old(self)@.update_model(name@, user_name@, user_email@),
            final(self)@.wf(),
            changed == old(self)@.has(name@),
    {
        let ghost un = user_name@;
        let ghost ue = user_email@;
        let ghost goal = self@.update_model(name@, user_name@, user_email@);
        let r = match self.find_index(name) {
            Some(i) => {
                self.profiles[i] = ProfileEntry {
                    name: name.clone(),
                    git: GitConfig { user_name, user_email },
                };
                true
            },
            None => false,
        };
        proof {
            assert(self@.profiles =~~= goal.profiles);
            assert(self@ =~~= goal);
            lemma_upsert_wf(old(self)@, name@, un, ue);
        }
        r
    }

    /// Deletes the entry stored under `name`, clearing the active marker if
    /// it named it; a no-op when `name` is absent.
    pub fn remove(&mut self, name: &String) -> (changed: bool)
        requires
            old(self)@.wf(),
        ensures
            final(self)@ == old(self)@.remove_model(name@),
            final(self)@.wf(),
            changed == old(self)@.has(name@),
    {
        let ghost goal = self@.remove_model(name@);
        let r = match self.find_index(name) {
            Some(i) => {
                self.profiles.remove(i);
                let clear = match &self.current_profile {
                    Some(cur) => *cur == *name,
                    None => false,
                };
                if clear {
                    self.current_profile = None;
                }
                true
            },
            None => false,
        };
        proof {
            assert(self@.profiles =~~= goal.profiles);
            assert(self@ =~~= goal);
            lemma_remove_clears(old(self)@, name@);
        }
        r
    }

    /// Points the active marker at `name` when it is stored; a no-op when it
    /// is absent.
    pub fn set_current(&mut self, name: &String) -> (changed: bool)
        requires
            old(self)@.wf(),
        ensures
            final(self)@ == old(self)@.switch_model(name@),
            final(self)@.wf(),
            changed == old(self)@.has(name@),
    {
        let ghost goal = self@.switch_model(name@);
        let r = match self.find_index(name) {
            Some(_) => {
                self.current_profile = Some(name.clone());
                true
            },
            None => false,
        };
        proof {
            assert(self@.profiles =~~= goal.profiles);
            assert(self@ =~~= goal);
        }
        r
    }

    /// Whether the store is well-formed: names unique, active marker stored.
    /// Unlike the other operations this asks nothing of the store, so a
    /// store read from outside can be checked before it is trusted.
    #[verifier::loop_isolation(false)]
    pub fn wf_check(&self) -> (r: bool)
        ensures
            r == self@.wf(),
    {
        let len = self.profiles.len();
        let mut i: usize = 0;
        while i < len
            invariant
                len == self.profiles.len(),
                i <= len,
                forall|a: int, b: int|
                    0 <= a < b < len && a < i ==> self@.profiles[a].name != self@.profiles[b].name,
            decreases len - i,
        {
            let mut j: usize = i + 1;
            while j < len
                invariant
                    len == self.profiles.len(),
                    i < j <= len,
                    i < len,
                    forall|b: int| i < b < j ==> self@.profiles[i as int].name
                        != self@.profiles[b].name,
                decreases len - j,
            {
                if self.profiles[i].name == self.profiles[j].name {
                    proof {
                        assert(self@.profiles[i as int].name == self.profiles@[i as int].name@);
                        assert(self@.profiles[j as int].name == self.profiles@[j as int].name@);
                    }
                    return false;
                }
                j = j + 1;
            }
            i = i + 1;
        }
        match &self.current_profile {
            Some(cur) => {
                let mut k: usize = 0;
                while k < len
                    invariant
                        len == self.profiles.len(),
                        k <= len,
                        self@.current_profile == Some(cur@),
                        forall|b: int| 0 <= b < k ==> self@.profiles[b].name != cur@,
                    decreases len - k,
                {
                    if self.profiles[k].name == *cur {
                        proof {
                            assert(self@.profiles[k as int].name == cur@);
                            assert(self@.has(cur@));
                        }
                        return true;
                    }
                    k = k + 1;
                }
                false
            },
            None => true,
        }
    }

    /// The stored profile names, in store order.
    pub fn list_names(&self) -> (r: Vec<String>)
        ensures
            r@.map_values(|s: String| s@) =~= self@.names(),
    {
        let mut out: Vec<String> = Vec::new();
        let n = self.profiles.len();
        for i in 0..n
            invariant
                n == self.profiles.len(),
                out@.len() == i,
                forall|j: int| 0 <= j < i ==> out@.map_values(|s: String| s@)[j] == self@.names()[j],
        {
            out.push(self.profiles[i].name.clone());
        }
        proof {
            assert(out@.map_values(|s: String| s@) =~= self@.names());
        }
        out
    }
}

/// Both the overwrite and the in-place update preserve well-formedness.
proof fn lemma_upsert_wf(c: ConfigV, name: Seq<char>, un: Seq<char>, ue: Seq<char>)
    requires
        c.wf(),
    ensures
        c.add_model(name, un, ue).wf(),
        c.update_model(name, un, ue).wf(),
{
    if c.has(name) {
        let k = c.idx(name);
        let r = c.add_model(name, un, ue);
        assert(0 <= k < c.profiles.len() && c.profiles[k].name == name);
        assert forall|i: int, j: int|
            0 <= i < j < r.profiles.len() implies r.profiles[i].name != r.profiles[j].name by {
            assert(r.profiles[i].name == c.profiles[i].name);
            assert(r.profiles[j].name == c.profiles[j].name);
        }
        match r.current_profile {
            Some(n) => {
                let p = c.idx(n);
                assert(c.profiles[p].name == n);
                assert(r.profiles[p].name == n);
                assert(r.has(n));
            },
            None => {},
        }
        assert(c.update_model(name, un, ue) == r);
    } else {
        let r = c.add_model(name, un, ue);
        assert forall|i: int, j: int|
            0 <= i < j < r.profiles.len() implies r.profiles[i].name != r.profiles[j].name by {
            if j < c.profiles.len() {
            } else {
                assert(r.profiles[j].name == name);
                assert(r.profiles[i].name == c.profiles[i].name);
                if c.profiles[i].name == name {
                    assert(c.has(name));
                }
            }
        }
        match r.current_profile {
            Some(n) => {
                let p = c.idx(n);
                assert(r.profiles[p].name == n);
                assert(r.has(n));
            },
            None => {},
        }
    }
}

} // verus!
