//! The interactive input state machine: the mode enum, the transition table
//! from (mode, key) to the next session state, the draft-buffer edits, the
//! selection-cursor motion, and the store mutation each transition commits.
//!
//! The whole table is stated once as the spec function [`step`]; the
//! executable [`handle_input`] is proved to follow it exactly. Store writes
//! and the external apply-profile call are not performed here: each call
//! returns an [`Effect`] telling the caller what to do.

use vstd::prelude::*;

use crate::config::{Config, ConfigV, GitConfig, GitConfigV};
use crate::cursor::{CursorMove, SelectionCursor};
use crate::text::{string_clear, string_pop, string_push};

verus! {

/// How many entries the main menu offers: add, switch, update, delete, list.
pub const MENU_OPTION_COUNT: usize = 5;

/// The step of the interactive flow the session is in. Exactly one mode is
/// active at a time; it decides which keys are meaningful.
#[derive(Clone, Copy, PartialEq, Eq, Structural, Debug)]
pub enum InputMode {
    Normal,
    InputProfileName,
    InputUserName,
    InputUserEmail,
    UpdateProfileUserName,
    UpdateProfileUserEmail,
    ListingProfiles,
    DeleteProfile,
    SwitchProfile,
    UpdateProfile,
    ConfirmDeleteProfile,
}

/// A key event, already decoded from the terminal: the keys the transition
/// table reads. Printable characters arrive as `Char`.
#[derive(Clone, Copy, PartialEq, Eq, Structural, Debug)]
pub enum Key {
    Up,
    Down,
    Enter,
    Esc,
    Backspace,
    Char(char),
}

/// What the caller must do after a transition: persist the store, and/or
/// apply an identity to the external tool's global configuration.
pub struct Effect {
    pub save: bool,
    pub apply: Option<GitConfig>,
}

/// The mathematical value of an [`Effect`].
#[verifier::ext_equal]
pub struct EffectV {
    pub save: bool,
    pub apply: Option<GitConfigV>,
}

impl View for Effect {
    type V = EffectV;

    open spec fn view(&self) -> EffectV {
        EffectV {
            save: self.save,
            apply: match self.apply {
                Some(g) => Some(g@),
                None => None,
            },
        }
    }
}

/// The interactive session state outside the store: the active mode, the
/// three draft buffers, the four selection cursors, and the profile names
/// captured mid-flow for deletion or update.
pub struct Session {
    pub input_mode: InputMode,
    pub profile_name: String,
    pub user_name: String,
    pub user_email: String,
    pub menu_cursor: SelectionCursor,
    pub delete_cursor: SelectionCursor,
    pub switch_cursor: SelectionCursor,
    pub update_cursor: SelectionCursor,
    pub selected_profile_to_delete: Option<String>,
    pub selected_profile_to_update: Option<String>,
}

/// The mathematical value of a [`Session`].
#[verifier::ext_equal]
pub struct SessionV {
    pub input_mode: InputMode,
    pub profile_name: Seq<char>,
    pub user_name: Seq<char>,
    pub user_email: Seq<char>,
    pub menu_cursor: SelectionCursor,
    pub delete_cursor: SelectionCursor,
    pub switch_cursor: SelectionCursor,
    pub update_cursor: SelectionCursor,
    pub selected_profile_to_delete: Option<Seq<char>>,
    pub selected_profile_to_update: Option<Seq<char>>,
}

impl View for Session {
    type V = SessionV;

    open spec fn view(&self) -> SessionV {
        SessionV {
            input_mode: self.input_mode,
            profile_name: self.profile_name@,
            user_name: self.user_name@,
            user_email: self.user_email@,
            menu_cursor: self.menu_cursor,
            delete_cursor: self.delete_cursor,
            switch_cursor: self.switch_cursor,
            update_cursor: self.update_cursor,
            selected_profile_to_delete: match self.selected_profile_to_delete {
                Some(s) => Some(s@),
                None => None,
            },
            selected_profile_to_update: match self.selected_profile_to_update {
                Some(s) => Some(s@),
                None => None,
            },
        }
    }
}

/// A whole transition: the session and store after the key, and the effect
/// owed to the caller.
#[verifier::ext_equal]
pub struct StepV {
    pub session: SessionV,
    pub config: ConfigV,
    pub effect: EffectV,
}

/// No store write, no apply call.
pub open spec fn no_effect() -> EffectV {
    EffectV { save: false, apply: None }
}

/// The identity transition: nothing changes, nothing is owed.
pub open spec fn ident(s: SessionV, c: ConfigV) -> StepV {
    StepV { session: s, config: c, effect: no_effect() }
}

impl SessionV {
    /// The session invariant, relative to the store. The cursors are inside
    /// their lists; a list mode's cursor ranges over the stored profiles; and
    /// a pending target exists exactly in its confirmation or edit mode and
    /// always names a stored profile.
    pub open spec fn inv(self, c: ConfigV) -> bool {
        &&& self.menu_cursor.wf()
        &&& self.menu_cursor.bound == MENU_OPTION_COUNT
        &&& self.delete_cursor.wf()
        &&& self.switch_cursor.wf()
        &&& self.update_cursor.wf()
        &&& (self.input_mode == InputMode::DeleteProfile ==> self.delete_cursor.bound
            == c.profiles.len())
        &&& (self.input_mode == InputMode::SwitchProfile ==> self.switch_cursor.bound
            == c.profiles.len())
        &&& (self.input_mode == InputMode::UpdateProfile ==> self.update_cursor.bound
            == c.profiles.len())
        &&& (match self.selected_profile_to_delete {
            Some(p) => self.input_mode == InputMode::ConfirmDeleteProfile && c.has(p),
            None => self.input_mode != InputMode::ConfirmDeleteProfile,
        })
        &&& (match self.selected_profile_to_update {
            Some(p) => (self.input_mode == InputMode::UpdateProfileUserName
                || self.input_mode == InputMode::UpdateProfileUserEmail) && c.has(p),
            None => self.input_mode != InputMode::UpdateProfileUserName
                && self.input_mode != InputMode::UpdateProfileUserEmail,
        })
    }
}

/// A fresh session: the menu, first option selected, everything else empty.
pub open spec fn initial_session() -> SessionV {
    SessionV {
        input_mode: InputMode::Normal,
        profile_name: Seq::empty(),
        user_name: Seq::empty(),
        user_email: Seq::empty(),
        menu_cursor: SelectionCursor { index: 0, bound: MENU_OPTION_COUNT },
        delete_cursor: SelectionCursor { index: 0, bound: 0 },
        switch_cursor: SelectionCursor { index: 0, bound: 0 },
        update_cursor: SelectionCursor { index: 0, bound: 0 },
        selected_profile_to_delete: None,
        selected_profile_to_update: None,
    }
}

/// The menu: Up/`k` and Down/`j` move the cursor; Enter opens the flow the
/// cursor selects; every other key is ignored.
pub open spec fn step_normal(s: SessionV, c: ConfigV, k: Key) -> StepV {
    match k {
        Key::Up => StepV {
            session: SessionV { menu_cursor: s.menu_cursor.spec_move(CursorMove::Up), ..s },
            config: c,
            effect: no_effect(),
        },
        Key::Down => StepV {
            session: SessionV { menu_cursor: s.menu_cursor.spec_move(CursorMove::Down), ..s },
            config: c,
            effect: no_effect(),
        },
        Key::Char(ch) => if ch == 'k' {
            StepV {
                session: SessionV { menu_cursor: s.menu_cursor.spec_move(CursorMove::Up), ..s },
                config: c,
                effect: no_effect(),
            }
        } else if ch == 'j' {
            StepV {
                session: SessionV { menu_cursor: s.menu_cursor.spec_move(CursorMove::Down), ..s },
                config: c,
                effect: no_effect(),
            }
        } else {
            ident(s, c)
        },
        Key::Enter => match s.menu_cursor.spec_selected() {
            Some(i) => if i == 0 {
                // entering the add flow restarts it with empty drafts
                StepV {
                    session: SessionV {
                        input_mode: InputMode::InputProfileName,
                        profile_name: Seq::empty(),
                        user_name: Seq::empty(),
                        user_email: Seq::empty(),
                        ..s
                    },
                    config: c,
                    effect: no_effect(),
                }
            } else if i == 1 {
                StepV {
                    session: SessionV {
                        input_mode: InputMode::SwitchProfile,
                        switch_cursor: SelectionCursor {
                            index: 0,
                            bound: c.profiles.len() as usize,
                        },
                        ..s
                    },
                    config: c,
                    effect: no_effect(),
                }
            } else if i == 2 {
                StepV {
                    session: SessionV {
                        input_mode: InputMode::UpdateProfile,
                        update_cursor: SelectionCursor {
                            index: 0,
                            bound: c.profiles.len() as usize,
                        },
                        ..s
                    },
                    config: c,
                    effect: no_effect(),
                }
            } else if i == 3 {
                StepV {
                    session: SessionV {
                        input_mode: InputMode::DeleteProfile,
                        delete_cursor: SelectionCursor {
                            index: 0,
                            bound: c.profiles.len() as usize,
                        },
                        ..s
                    },
                    config: c,
                    effect: no_effect(),
                }
            } else if i == 4 {
                StepV {
                    session: SessionV { input_mode: InputMode::ListingProfiles, ..s },
                    config: c,
                    effect: no_effect(),
                }
            } else {
                ident(s, c)
            },
            None => ident(s, c),
        },
        _ => ident(s, c),
    }
}

/// Entering the new profile's name. Enter on an empty draft is refused.
pub open spec fn step_input_profile_name(s: SessionV, c: ConfigV, k: Key) -> StepV {
    match k {
        Key::Char(ch) => StepV {
            session: SessionV { profile_name: s.profile_name.push(ch), ..s },
            config: c,
            effect: no_effect(),
        },
        Key::Backspace => StepV {
            session: SessionV {
                profile_name: if s.profile_name.len() > 0 {
                    s.profile_name.drop_last()
                } else {
                    s.profile_name
                },
                ..s
            },
            config: c,
            effect: no_effect(),
        },
        Key::Enter => if s.profile_name.len() > 0 {
            StepV {
                session: SessionV { input_mode: InputMode::InputUserName, ..s },
                config: c,
                effect: no_effect(),
            }
        } else {
            ident(s, c)
        },
        Key::Esc => StepV {
            session: SessionV {
                input_mode: InputMode::Normal,
                profile_name: Seq::empty(),
                ..s
            },
            config: c,
            effect: no_effect(),
        },
        _ => ident(s, c),
    }
}

/// Entering the new profile's user name. Esc aborts the whole add flow.
pub open spec fn step_input_user_name(s: SessionV, c: ConfigV, k: Key) -> StepV {
    match k {
        Key::Char(ch) => StepV {
            session: SessionV { user_name: s.user_name.push(ch), ..s },
            config: c,
            effect: no_effect(),
        },
        Key::Backspace => StepV {
            session: SessionV {
                user_name: if s.user_name.len() > 0 {
                    s.user_name.drop_last()
                } else {
                    s.user_name
                },
                ..s
            },
            config: c,
            effect: no_effect(),
        },
        Key::Enter => if s.user_name.len() > 0 {
            StepV {
                session: SessionV { input_mode: InputMode::InputUserEmail, ..s },
                config: c,
                effect: no_effect(),
            }
        } else {
            ident(s, c)
        },
        Key::Esc => StepV {
            session: SessionV {
                input_mode: InputMode::Normal,
                user_name: Seq::empty(),
                profile_name: Seq::empty(),
                ..s
            },
            config: c,
            effect: no_effect(),
        },
        _ => ident(s, c),
    }
}

/// Entering the new profile's email. Enter on a non-empty draft commits the
/// new profile to the store and owes the caller a save.
pub open spec fn step_input_user_email(s: SessionV, c: ConfigV, k: Key) -> StepV {
    match k {
        Key::Char(ch) => StepV {
            session: SessionV { user_email: s.user_email.push(ch), ..s },
            config: c,
            effect: no_effect(),
        },
        Key::Backspace => StepV {
            session: SessionV {
                user_email: if s.user_email.len() > 0 {
                    s.user_email.drop_last()
                } else {
                    s.user_email
                },
                ..s
            },
            config: c,
            effect: no_effect(),
        },
        Key::Enter => if s.user_email.len() > 0 {
            StepV {
                session: SessionV {
                    input_mode: InputMode::Normal,
                    profile_name: Seq::empty(),
                    user_name: Seq::empty(),
                    user_email: Seq::empty(),
                    ..s
                },
                config: c.add_model(s.profile_name, s.user_name, s.user_email),
                effect: EffectV { save: true, apply: None },
            }
        } else {
            ident(s, c)
        },
        Key::Esc => StepV {
            session: SessionV {
                input_mode: InputMode::Normal,
                profile_name: Seq::empty(),
                user_name: Seq::empty(),
                user_email: Seq::empty(),
                ..s
            },
            config: c,
            effect: no_effect(),
        },
        _ => ident(s, c),
    }
}

/// The read-only profile listing: `b` or Esc go back to the menu.
pub open spec fn step_listing(s: SessionV, c: ConfigV, k: Key) -> StepV {
    match k {
        Key::Char(ch) => if ch == 'b' {
            StepV {
                session: SessionV { input_mode: InputMode::Normal, ..s },
                config: c,
                effect: no_effect(),
            }
        } else {
            ident(s, c)
        },
        Key::Esc => StepV {
            session: SessionV { input_mode: InputMode::Normal, ..s },
            config: c,
            effect: no_effect(),
        },
        _ => ident(s, c),
    }
}

/// Choosing a profile to delete: Enter captures the selected name as the
/// pending target and asks for confirmation.
pub open spec fn step_delete_list(s: SessionV, c: ConfigV, k: Key) -> StepV {
    match k {
        Key::Up => StepV {
            session: SessionV { delete_cursor: s.delete_cursor.spec_move(CursorMove::Up), ..s },
            config: c,
            effect: no_effect(),
        },
        Key::Down => StepV {
            session: SessionV { delete_cursor: s.delete_cursor.spec_move(CursorMove::Down), ..s },
            config: c,
            effect: no_effect(),
        },
        Key::Char(ch) => if ch == 'k' {
            StepV {
                session: SessionV { delete_cursor: s.delete_cursor.spec_move(CursorMove::Up), ..s },
                config: c,
                effect: no_effect(),
            }
        } else if ch == 'j' {
            StepV {
                session: SessionV {
                    delete_cursor: s.delete_cursor.spec_move(CursorMove::Down),
                    ..s
                },
                config: c,
                effect: no_effect(),
            }
        } else if ch == 'b' {
            StepV {
                session: SessionV { input_mode: InputMode::Normal, ..s },
                config: c,
                effect: no_effect(),
            }
        } else {
            ident(s, c)
        },
        Key::Enter => match s.delete_cursor.spec_selected() {
            Some(i) => if i < c.profiles.len() {
                StepV {
                    session: SessionV {
                        input_mode: InputMode::ConfirmDeleteProfile,
                        selected_profile_to_delete: Some(c.profiles[i as int].name),
                        ..s
                    },
                    config: c,
                    effect: no_effect(),
                }
            } else {
                ident(s, c)
            },
            None => ident(s, c),
        },
        Key::Esc => StepV {
            session: SessionV { input_mode: InputMode::Normal, ..s },
            config: c,
            effect: no_effect(),
        },
        _ => ident(s, c),
    }
}

/// Choosing a profile to switch to: Enter marks it active, owes the caller a
/// save and an apply of its identity, and returns to the menu.
pub open spec fn step_switch_list(s: SessionV, c: ConfigV, k: Key) -> StepV {
    match k {
        Key::Up => StepV {
            session: SessionV { switch_cursor: s.switch_cursor.spec_move(CursorMove::Up), ..s },
            config: c,
            effect: no_effect(),
        },
        Key::Down => StepV {
            session: SessionV { switch_cursor: s.switch_cursor.spec_move(CursorMove::Down), ..s },
            config: c,
            effect: no_effect(),
        },
        Key::Char(ch) => if ch == 'k' {
            StepV {
                session: SessionV { switch_cursor: s.switch_cursor.spec_move(CursorMove::Up), ..s },
                config: c,
                effect: no_effect(),
            }
        } else if ch == 'j' {
            StepV {
                session: SessionV {
                    switch_cursor: s.switch_cursor.spec_move(CursorMove::Down),
                    ..s
                },
                config: c,
                effect: no_effect(),
            }
        } else if ch == 'b' {
            StepV {
                session: SessionV { input_mode: InputMode::Normal, ..s },
                config: c,
                effect: no_effect(),
            }
        } else {
            ident(s, c)
        },
        Key::Enter => match s.switch_cursor.spec_selected() {
            Some(i) => if i < c.profiles.len() {
                StepV {
                    session: SessionV { input_mode: InputMode::Normal, ..s },
                    config: ConfigV {
                        profiles: c.profiles,
                        current_profile: Some(c.profiles[i as int].name),
                    },
                    effect: EffectV { save: true, apply: Some(c.profiles[i as int].git) },
                }
            } else {
                ident(s, c)
            },
            None => ident(s, c),
        },
        Key::Esc => StepV {
            session: SessionV { input_mode: InputMode::Normal, ..s },
            config: c,
            effect: no_effect(),
        },
        _ => ident(s, c),
    }
}

/// Choosing a profile to update: Enter captures the selected name as the
/// pending target and opens the edit flow with empty drafts.
pub open spec fn step_update_list(s: SessionV, c: ConfigV, k: Key) -> StepV {
    match k {
        Key::Up => StepV {
            session: SessionV { update_cursor: s.update_cursor.spec_move(CursorMove::Up), ..s },
            config: c,
            effect: no_effect(),
        },
        Key::Down => StepV {
            session: SessionV { update_cursor: s.update_cursor.spec_move(CursorMove::Down), ..s },
            config: c,
            effect: no_effect(),
        },
        Key::Char(ch) => if ch == 'k' {
            StepV {
                session: SessionV { update_cursor: s.update_cursor.spec_move(CursorMove::Up), ..s },
                config: c,
                effect: no_effect(),
            }
        } else if ch == 'j' {
            StepV {
                session: SessionV {
                    update_cursor: s.update_cursor.spec_move(CursorMove::Down),
                    ..s
                },
                config: c,
                effect: no_effect(),
            }
        } else if ch == 'b' {
            StepV {
                session: SessionV { input_mode: InputMode::Normal, ..s },
                config: c,
                effect: no_effect(),
            }
        } else {
            ident(s, c)
        },
        Key::Enter => match s.update_cursor.spec_selected() {
            Some(i) => if i < c.profiles.len() {
                StepV {
                    session: SessionV {
                        input_mode: InputMode::UpdateProfileUserName,
                        selected_profile_to_update: Some(c.profiles[i as int].name),
                        user_name: Seq::empty(),
                        user_email: Seq::empty(),
                        ..s
                    },
                    config: c,
                    effect: no_effect(),
                }
            } else {
                ident(s, c)
            },
            None => ident(s, c),
        },
        Key::Esc => StepV {
            session: SessionV { input_mode: InputMode::Normal, ..s },
            config: c,
            effect: no_effect(),
        },
        _ => ident(s, c),
    }
}

/// Entering the updated user name. Esc cancels the update flow and drops the
/// pending target.
pub open spec fn step_update_user_name(s: SessionV, c: ConfigV, k: Key) -> StepV {
    match k {
        Key::Char(ch) => StepV {
            session: SessionV { user_name: s.user_name.push(ch), ..s },
            config: c,
            effect: no_effect(),
        },
        Key::Backspace => StepV {
            session: SessionV {
                user_name: if s.user_name.len() > 0 {
                    s.user_name.drop_last()
                } else {
                    s.user_name
                },
                ..s
            },
            config: c,
            effect: no_effect(),
        },
        Key::Enter => if s.user_name.len() > 0 {
            StepV {
                session: SessionV { input_mode: InputMode::UpdateProfileUserEmail, ..s },
                config: c,
                effect: no_effect(),
            }
        } else {
            ident(s, c)
        },
        Key::Esc => StepV {
            session: SessionV {
                input_mode: InputMode::Normal,
                user_name: Seq::empty(),
                selected_profile_to_update: None,
                ..s
            },
            config: c,
            effect: no_effect(),
        },
        _ => ident(s, c),
    }
}

/// Entering the updated email. Enter on a non-empty draft rewrites the
/// pending profile's identity in place and owes the caller a save.
pub open spec fn step_update_user_email(s: SessionV, c: ConfigV, k: Key) -> StepV {
    match k {
        Key::Char(ch) => StepV {
            session: SessionV { user_email: s.user_email.push(ch), ..s },
            config: c,
            effect: no_effect(),
        },
        Key::Backspace => StepV {
            session: SessionV {
                user_email: if s.user_email.len() > 0 {
                    s.user_email.drop_last()
                } else {
                    s.user_email
                },
                ..s
            },
            config: c,
            effect: no_effect(),
        },
        Key::Enter => if s.user_email.len() > 0 {
            match s.selected_profile_to_update {
                Some(p) => StepV {
                    session: SessionV {
                        input_mode: InputMode::Normal,
                        user_name: Seq::empty(),
                        user_email: Seq::empty(),
                        selected_profile_to_update: None,
                        ..s
                    },
                    config: c.update_model(p, s.user_name, s.user_email),
                    effect: EffectV { save: true, apply: None },
                },
                None => ident(s, c),
            }
        } else {
            ident(s, c)
        },
        Key::Esc => StepV {
            session: SessionV {
                input_mode: InputMode::Normal,
                user_email: Seq::empty(),
                selected_profile_to_update: None,
                ..s
            },
            config: c,
            effect: no_effect(),
        },
        _ => ident(s, c),
    }
}

/// Confirming a deletion: `y` removes the pending profile and owes a save;
/// `n` or Esc abandons it; both drop the pending target.
pub open spec fn step_confirm_delete(s: SessionV, c: ConfigV, k: Key) -> StepV {
    match k {
        Key::Char(ch) => if ch == 'y' {
            match s.selected_profile_to_delete {
                Some(p) => StepV {
                    session: SessionV {
                        input_mode: InputMode::Normal,
                        selected_profile_to_delete: None,
                        ..s
                    },
                    config: c.remove_model(p),
                    effect: EffectV { save: true, apply: None },
                },
                None => StepV {
                    session: SessionV {
                        input_mode: InputMode::Normal,
                        selected_profile_to_delete: None,
                        ..s
                    },
                    config: c,
                    effect: no_effect(),
                },
            }
        } else if ch == 'n' {
            StepV {
                session: SessionV {
                    input_mode: InputMode::Normal,
                    selected_profile_to_delete: None,
                    ..s
                },
                config: c,
                effect: no_effect(),
            }
        } else {
            ident(s, c)
        },
        Key::Esc => StepV {
            session: SessionV {
                input_mode: InputMode::Normal,
                selected_profile_to_delete: None,
                ..s
            },
            config: c,
            effect: no_effect(),
        },
        _ => ident(s, c),
    }
}

/// The whole transition table: a pure function of the session, the store and
/// the key.
pub open spec fn step(s: SessionV, c: ConfigV, k: Key) -> StepV {
    match s.input_mode {
        InputMode::Normal => step_normal(s, c, k),
        InputMode::InputProfileName => step_input_profile_name(s, c, k),
        InputMode::InputUserName => step_input_user_name(s, c, k),
        InputMode::InputUserEmail => step_input_user_email(s, c, k),
        InputMode::UpdateProfileUserName => step_update_user_name(s, c, k),
        InputMode::UpdateProfileUserEmail => step_update_user_email(s, c, k),
        InputMode::ListingProfiles => step_listing(s, c, k),
        InputMode::DeleteProfile => step_delete_list(s, c, k),
        InputMode::SwitchProfile => step_switch_list(s, c, k),
        InputMode::UpdateProfile => step_update_list(s, c, k),
        InputMode::ConfirmDeleteProfile => step_confirm_delete(s, c, k),
    }
}

/// Whether the transition table has a rule for `k` in mode `m` at all.
pub open spec fn recognized(m: InputMode, k: Key) -> bool {
    match m {
        InputMode::Normal => match k {
            Key::Up | Key::Down | Key::Enter => true,
            Key::Char(ch) => ch == 'k' || ch == 'j',
            _ => false,
        },
        InputMode::InputProfileName
        | InputMode::InputUserName
        | InputMode::InputUserEmail
        | InputMode::UpdateProfileUserName
        | InputMode::UpdateProfileUserEmail => match k {
            Key::Char(_) | Key::Backspace | Key::Enter | Key::Esc => true,
            _ => false,
        },
        InputMode::ListingProfiles => match k {
            Key::Esc => true,
            Key::Char(ch) => ch == 'b',
            _ => false,
        },
        InputMode::DeleteProfile | InputMode::SwitchProfile | InputMode::UpdateProfile => match k {
            Key::Up | Key::Down | Key::Enter | Key::Esc => true,
            Key::Char(ch) => ch == 'k' || ch == 'j' || ch == 'b',
            _ => false,
        },
        InputMode::ConfirmDeleteProfile => match k {
            Key::Esc => true,
            Key::Char(ch) => ch == 'y' || ch == 'n',
            _ => false,
        },
    }
}

/// Law: a key the current mode has no rule for changes nothing — not the
/// mode, not the buffers, not the cursors, not the store — and owes nothing.
pub proof fn lemma_unrecognized_key_is_noop(s: SessionV, c: ConfigV, k: Key)
    requires
        !recognized(s.input_mode, k),
    ensures
        step(s, c, k) == ident(s, c),
{
}

/// Law: in every required-field entry mode, Enter on an empty draft buffer is
/// the identity transition: the mode does not change, and neither does
/// anything else.
pub proof fn lemma_enter_on_empty_buffer_is_noop(s: SessionV, c: ConfigV)
    requires
        (s.input_mode == InputMode::InputProfileName && s.profile_name.len() == 0)
        || (s.input_mode == InputMode::InputUserName && s.user_name.len() == 0)
        || (s.input_mode == InputMode::InputUserEmail && s.user_email.len() == 0)
        || (s.input_mode == InputMode::UpdateProfileUserName && s.user_name.len() == 0)
        || (s.input_mode == InputMode::UpdateProfileUserEmail && s.user_email.len() == 0),
    ensures
        step(s, c, Key::Enter) == ident(s, c),
{
}

impl Session {
    /// A fresh session at the menu, with nothing drafted and nothing pending.
    pub fn new() -> (s: Session)
        ensures
            s@ == initial_session(),
            forall|c: ConfigV| s@.inv(c),
    {
        Session {
            input_mode: InputMode::Normal,
            profile_name: String::new(),
            user_name: String::new(),
            user_email: String::new(),
            menu_cursor: SelectionCursor::new(MENU_OPTION_COUNT),
            delete_cursor: SelectionCursor::new(0),
            switch_cursor: SelectionCursor::new(0),
            update_cursor: SelectionCursor::new(0),
            selected_profile_to_delete: None,
            selected_profile_to_update: None,
        }
    }

    /// Whether the session invariant holds against `config`; what
    /// [`handle_input`] requires. A fresh session satisfies it against any
    /// store.
    pub fn invariant_holds(&self, config: &Config) -> (r: bool)
        requires
            config@.wf(),
        ensures
            r == self@.inv(config@),
    {
        let cursors_ok = (self.menu_cursor.bound == MENU_OPTION_COUNT
            && self.menu_cursor.index < MENU_OPTION_COUNT)
            && (self.delete_cursor.bound == 0 && self.delete_cursor.index == 0
                || self.delete_cursor.index < self.delete_cursor.bound)
            && (self.switch_cursor.bound == 0 && self.switch_cursor.index == 0
                || self.switch_cursor.index < self.switch_cursor.bound)
            && (self.update_cursor.bound == 0 && self.update_cursor.index == 0
                || self.update_cursor.index < self.update_cursor.bound);
        let n = config.profiles.len();
        let bounds_ok = (!matches!(self.input_mode, InputMode::DeleteProfile)
            || self.delete_cursor.bound == n)
            && (!matches!(self.input_mode, InputMode::SwitchProfile)
                || self.switch_cursor.bound == n)
            && (!matches!(self.input_mode, InputMode::UpdateProfile)
                || self.update_cursor.bound == n);
        let delete_ok = match &self.selected_profile_to_delete {
            Some(p) => matches!(self.input_mode, InputMode::ConfirmDeleteProfile)
                && config.contains(p),
            None => !matches!(self.input_mode, InputMode::ConfirmDeleteProfile),
        };
        let update_ok = match &self.selected_profile_to_update {
            Some(p) => (matches!(self.input_mode, InputMode::UpdateProfileUserName)
                || matches!(self.input_mode, InputMode::UpdateProfileUserEmail))
                && config.contains(p),
            None => !matches!(self.input_mode, InputMode::UpdateProfileUserName)
                && !matches!(self.input_mode, InputMode::UpdateProfileUserEmail),
        };
        cursors_ok && bounds_ok && delete_ok && update_ok
    }
}

/// Dispatches one key event against the current mode: moves cursors, edits
/// draft buffers, changes mode and mutates the store exactly as the
/// transition table [`step`] says, and returns the effect owed.
pub fn handle_input(key: Key, session: &mut Session, config: &mut Config) -> (effect: Effect)
    requires
        old(session)@.inv(old(config)@),
        old(config)@.wf(),
    ensures
        (StepV { session: final(session)@, config: final(config)@, effect: effect@ })
            == step(old(session)@, old(config)@, key),
        final(session)@.inv(final(config)@),
        final(config)@.wf(),
{
    match session.input_mode {
        InputMode::Normal => handle_normal(key, session, config),
        InputMode::InputProfileName => handle_input_profile_name(key, session, config),
        InputMode::InputUserName => handle_input_user_name(key, session, config),
        InputMode::InputUserEmail => handle_input_user_email(key, session, config),
        InputMode::UpdateProfileUserName => handle_update_user_name(key, session, config),
        InputMode::UpdateProfileUserEmail => handle_update_user_email(key, session, config),
        InputMode::ListingProfiles => handle_listing(key, session, config),
        InputMode::DeleteProfile => handle_delete_list(key, session, config),
        InputMode::SwitchProfile => handle_switch_list(key, session, config),
        InputMode::UpdateProfile => handle_update_list(key, session, config),
        InputMode::ConfirmDeleteProfile => handle_confirm_delete(key, session, config),
    }
}

fn handle_normal(key: Key, session: &mut Session, config: &mut Config) -> (effect: Effect)
    requires
        old(session)@.inv(old(config)@),
        old(config)@.wf(),
        old(session).input_mode == InputMode::Normal,
    ensures
        (StepV { session: final(session)@, config: final(config)@, effect: effect@ })
            == step_normal(old(session)@, old(config)@, key),
        final(session)@.inv(final(config)@),
        final(config)@.wf(),
{
    match key {
        Key::Up => {
            session.menu_cursor.move_up();
        },
        Key::Down => {
            session.menu_cursor.move_down();
        },
        Key::Char(ch) => {
            if ch == 'k' {
                session.menu_cursor.move_up();
            } else if ch == 'j' {
                session.menu_cursor.move_down();
            }
        },
        Key::Enter => {
            match session.menu_cursor.selected() {
                Some(i) => {
                    if i == 0 {
                        session.input_mode = InputMode::InputProfileName;
                        string_clear(&mut session.profile_name);
                        string_clear(&mut session.user_name);
                        string_clear(&mut session.user_email);
                    } else if i == 1 {
                        session.input_mode = InputMode::SwitchProfile;
                        session.switch_cursor = SelectionCursor::new(config.profiles.len());
                    } else if i == 2 {
                        session.input_mode = InputMode::UpdateProfile;
                        session.update_cursor = SelectionCursor::new(config.profiles.len());
                    } else if i == 3 {
                        session.input_mode = InputMode::DeleteProfile;
                        session.delete_cursor = SelectionCursor::new(config.profiles.len());
                    } else if i == 4 {
                        session.input_mode = InputMode::ListingProfiles;
                    }
                },
                None => {},
            }
        },
        _ => {},
    }
    Effect { save: false, apply: None }
}

fn handle_input_profile_name(key: Key, session: &mut Session, config: &mut Config) -> (effect:
    Effect)
    requires
        old(session)@.inv(old(config)@),
        old(config)@.wf(),
        old(session).input_mode == InputMode::InputProfileName,
    ensures
        (StepV { session: final(session)@, config: final(config)@, effect: effect@ })
            == step_input_profile_name(old(session)@, old(config)@, key),
        final(session)@.inv(final(config)@),
        final(config)@.wf(),
{
    match key {
        Key::Char(ch) => {
            string_push(&mut session.profile_name, ch);
        },
        Key::Backspace => {
            string_pop(&mut session.profile_name);
        },
        Key::Enter => {
            if !session.profile_name.as_str().is_empty() {
                session.input_mode = InputMode::InputUserName;
            }
        },
        Key::Esc => {
            session.input_mode = InputMode::Normal;
            string_clear(&mut session.profile_name);
        },
        _ => {},
    }
    Effect { save: false, apply: None }
}

fn handle_input_user_name(key: Key, session: &mut Session, config: &mut Config) -> (effect: Effect)
    requires
        old(session)@.inv(old(config)@),
        old(config)@.wf(),
        old(session).input_mode == InputMode::InputUserName,
    ensures
        (StepV { session: final(session)@, config: final(config)@, effect: effect@ })
            == step_input_user_name(old(session)@, old(config)@, key),
        final(session)@.inv(final(config)@),
        final(config)@.wf(),
{
    match key {
        Key::Char(ch) => {
            string_push(&mut session.user_name, ch);
        },
        Key::Backspace => {
            string_pop(&mut session.user_name);
        },
        Key::Enter => {
            if !session.user_name.as_str().is_empty() {
                session.input_mode = InputMode::InputUserEmail;
            }
        },
        Key::Esc => {
            session.input_mode = InputMode::Normal;
            string_clear(&mut session.user_name);
            string_clear(&mut session.profile_name);
        },
        _ => {},
    }
    Effect { save: false, apply: None }
}

fn handle_input_user_email(key: Key, session: &mut Session, config: &mut Config) -> (effect: Effect)
    requires
        old(session)@.inv(old(config)@),
        old(config)@.wf(),
        old(session).input_mode == InputMode::InputUserEmail,
    ensures
        (StepV { session: final(session)@, config: final(config)@, effect: effect@ })
            == step_input_user_email(old(session)@, old(config)@, key),
        final(session)@.inv(final(config)@),
        final(config)@.wf(),
{
    match key {
        Key::Char(ch) => {
            string_push(&mut session.user_email, ch);
            Effect { save: false, apply: None }
        },
        Key::Backspace => {
            string_pop(&mut session.user_email);
            Effect { save: false, apply: None }
        },
        Key::Enter => {
            if !session.user_email.as_str().is_empty() {
                let name = session.profile_name.clone();
                let un = session.user_name.clone();
                let ue = session.user_email.clone();
                config.add(name, un, ue);
                session.input_mode = InputMode::Normal;
                string_clear(&mut session.profile_name);
                string_clear(&mut session.user_name);
                string_clear(&mut session.user_email);
                Effect { save: true, apply: None }
            } else {
                Effect { save: false, apply: None }
            }
        },
        Key::Esc => {
            session.input_mode = InputMode::Normal;
            string_clear(&mut session.profile_name);
            string_clear(&mut session.user_name);
            string_clear(&mut session.user_email);
            Effect { save: false, apply: None }
        },
        _ => Effect { save: false, apply: None },
    }
}

fn handle_listing(key: Key, session: &mut Session, config: &mut Config) -> (effect: Effect)
    requires
        old(session)@.inv(old(config)@),
        old(config)@.wf(),
        old(session).input_mode == InputMode::ListingProfiles,
    ensures
        (StepV { session: final(session)@, config: final(config)@, effect: effect@ })
            == step_listing(old(session)@, old(config)@, key),
        final(session)@.inv(final(config)@),
        final(config)@.wf(),
{
    match key {
        Key::Char(ch) => {
            if ch == 'b' {
                session.input_mode = InputMode::Normal;
            }
        },
        Key::Esc => {
            session.input_mode = InputMode::Normal;
        },
        _ => {},
    }
    Effect { save: false, apply: None }
}

fn handle_delete_list(key: Key, session: &mut Session, config: &mut Config) -> (effect: Effect)
    requires
        old(session)@.inv(old(config)@),
        old(config)@.wf(),
        old(session).input_mode == InputMode::DeleteProfile,
    ensures
        (StepV { session: final(session)@, config: final(config)@, effect: effect@ })
            == step_delete_list(old(session)@, old(config)@, key),
        final(session)@.inv(final(config)@),
        final(config)@.wf(),
{
    match key {
        Key::Up => {
            session.delete_cursor.move_up();
        },
        Key::Down => {
            session.delete_cursor.move_down();
        },
        Key::Char(ch) => {
            if ch == 'k' {
                session.delete_cursor.move_up();
            } else if ch == 'j' {
                session.delete_cursor.move_down();
            } else if ch == 'b' {
                session.input_mode = InputMode::Normal;
            }
        },
        Key::Enter => {
            match session.delete_cursor.selected() {
                Some(i) => {
                    let nm = config.profiles[i].name.clone();
                    proof {
                        assert(config@.profiles[i as int].name == nm@);
                        assert(config@.has(nm@));
                    }
                    session.selected_profile_to_delete = Some(nm);
                    session.input_mode = InputMode::ConfirmDeleteProfile;
                },
                None => {},
            }
        },
        Key::Esc => {
            session.input_mode = InputMode::Normal;
        },
        _ => {},
    }
    Effect { save: false, apply: None }
}

fn handle_switch_list(key: Key, session: &mut Session, config: &mut Config) -> (effect: Effect)
    requires
        old(session)@.inv(old(config)@),
        old(config)@.wf(),
        old(session).input_mode == InputMode::SwitchProfile,
    ensures
        (StepV { session: final(session)@, config: final(config)@, effect: effect@ })
            == step_switch_list(old(session)@, old(config)@, key),
        final(session)@.inv(final(config)@),
        final(config)@.wf(),
{
    match key {
        Key::Up => {
            session.switch_cursor.move_up();
            Effect { save: false, apply: None }
        },
        Key::Down => {
            session.switch_cursor.move_down();
            Effect { save: false, apply: None }
        },
        Key::Char(ch) => {
            if ch == 'k' {
                session.switch_cursor.move_up();
            } else if ch == 'j' {
                session.switch_cursor.move_down();
            } else if ch == 'b' {
                session.input_mode = InputMode::Normal;
            }
            Effect { save: false, apply: None }
        },
        Key::Enter => {
            match session.switch_cursor.selected() {
                Some(i) => {
                    let nm = config.profiles[i].name.clone();
                    let git = config.profiles[i].git.duplicate();
                    proof {
                        assert(config@.profiles[i as int].name == nm@);
                        assert(config@.has(nm@));
                    }
                    config.current_profile = Some(nm);
                    session.input_mode = InputMode::Normal;
                    proof {
                        assert(config@.profiles =~~= old(config)@.profiles);
                        let ghost gi = i as int;
                        assert(config@.profiles[gi].name == old(config)@.profiles[gi].name);
                        assert(config@.has(old(config)@.profiles[i as int].name));
                    }
                    Effect { save: true, apply: Some(git) }
                },
                None => Effect { save: false, apply: None },
            }
        },
        Key::Esc => {
            session.input_mode = InputMode::Normal;
            Effect { save: false, apply: None }
        },
        _ => Effect { save: false, apply: None },
    }
}

fn handle_update_list(key: Key, session: &mut Session, config: &mut Config) -> (effect: Effect)
    requires
        old(session)@.inv(old(config)@),
        old(config)@.wf(),
        old(session).input_mode == InputMode::UpdateProfile,
    ensures
        (StepV { session: final(session)@, config: final(config)@, effect: effect@ })
            == step_update_list(old(session)@, old(config)@, key),
        final(session)@.inv(final(config)@),
        final(config)@.wf(),
{
    match key {
        Key::Up => {
            session.update_cursor.move_up();
        },
        Key::Down => {
            session.update_cursor.move_down();
        },
        Key::Char(ch) => {
            if ch == 'k' {
                session.update_cursor.move_up();
            } else if ch == 'j' {
                session.update_cursor.move_down();
            } else if ch == 'b' {
                session.input_mode = InputMode::Normal;
            }
        },
        Key::Enter => {
            match session.update_cursor.selected() {
                Some(i) => {
                    let nm = config.profiles[i].name.clone();
                    proof {
                        assert(config@.profiles[i as int].name == nm@);
                        assert(config@.has(nm@));
                    }
                    session.selected_profile_to_update = Some(nm);
                    session.input_mode = InputMode::UpdateProfileUserName;
                    string_clear(&mut session.user_name);
                    string_clear(&mut session.user_email);
                },
                None => {},
            }
        },
        Key::Esc => {
            session.input_mode = InputMode::Normal;
        },
        _ => {},
    }
    Effect { save: false, apply: None }
}

fn handle_update_user_name(key: Key, session: &mut Session, config: &mut Config) -> (effect: Effect)
    requires
        old(session)@.inv(old(config)@),
        old(config)@.wf(),
        old(session).input_mode == InputMode::UpdateProfileUserName,
    ensures
        (StepV { session: final(session)@, config: final(config)@, effect: effect@ })
            == step_update_user_name(old(session)@, old(config)@, key),
        final(session)@.inv(final(config)@),
        final(config)@.wf(),
{
    match key {
        Key::Char(ch) => {
            string_push(&mut session.user_name, ch);
        },
        Key::Backspace => {
            string_pop(&mut session.user_name);
        },
        Key::Enter => {
            if !session.user_name.as_str().is_empty() {
                session.input_mode = InputMode::UpdateProfileUserEmail;
            }
        },
        Key::Esc => {
            session.input_mode = InputMode::Normal;
            string_clear(&mut session.user_name);
            session.selected_profile_to_update = None;
        },
        _ => {},
    }
    Effect { save: false, apply: None }
}

fn handle_update_user_email(key: Key, session: &mut Session, config: &mut Config) -> (effect:
    Effect)
    requires
        old(session)@.inv(old(config)@),
        old(config)@.wf(),
        old(session).input_mode == InputMode::UpdateProfileUserEmail,
    ensures
        (StepV { session: final(session)@, config: final(config)@, effect: effect@ })
            == step_update_user_email(old(session)@, old(config)@, key),
        final(session)@.inv(final(config)@),
        final(config)@.wf(),
{
    match key {
        Key::Char(ch) => {
            string_push(&mut session.user_email, ch);
            Effect { save: false, apply: None }
        },
        Key::Backspace => {
            string_pop(&mut session.user_email);
            Effect { save: false, apply: None }
        },
        Key::Enter => {
            if !session.user_email.as_str().is_empty() {
                let pending = session.selected_profile_to_update.take();
                match pending {
                    Some(p) => {
                        let un = session.user_name.clone();
                        let ue = session.user_email.clone();
                        config.update(&p, un, ue);
                        session.input_mode = InputMode::Normal;
                        string_clear(&mut session.user_name);
                        string_clear(&mut session.user_email);
                        Effect { save: true, apply: None }
                    },
                    None => Effect { save: false, apply: None },
                }
            } else {
                Effect { save: false, apply: None }
            }
        },
        Key::Esc => {
            session.input_mode = InputMode::Normal;
            string_clear(&mut session.user_email);
            session.selected_profile_to_update = None;
            Effect { save: false, apply: None }
        },
        _ => Effect { save: false, apply: None },
    }
}

fn handle_confirm_delete(key: Key, session: &mut Session, config: &mut Config) -> (effect: Effect)
    requires
        old(session)@.inv(old(config)@),
        old(config)@.wf(),
        old(session).input_mode == InputMode::ConfirmDeleteProfile,
    ensures
        (StepV { session: final(session)@, config: final(config)@, effect: effect@ })
            == step_confirm_delete(old(session)@, old(config)@, key),
        final(session)@.inv(final(config)@),
        final(config)@.wf(),
{
    match key {
        Key::Char(ch) => {
            if ch == 'y' {
                let pending = session.selected_profile_to_delete.take();
                session.input_mode = InputMode::Normal;
                match pending {
                    Some(p) => {
                        config.remove(&p);
                        Effect { save: true, apply: None }
                    },
                    None => Effect { save: false, apply: None },
                }
            } else if ch == 'n' {
                session.input_mode = InputMode::Normal;
                session.selected_profile_to_delete = None;
                Effect { save: false, apply: None }
            } else {
                Effect { save: false, apply: None }
            }
        },
        Key::Esc => {
            session.input_mode = InputMode::Normal;
            session.selected_profile_to_delete = None;
            Effect { save: false, apply: None }
        },
        _ => Effect { save: false, apply: None },
    }
}

} // verus!
