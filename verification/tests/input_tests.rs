use lit::config::Config;
use lit::input::{handle_input, Effect, InputMode, Key, Session};

fn store_with(entries: &[(&str, &str, &str)]) -> Config {
    let mut c = Config::new();
    for (name, user_name, user_email) in entries {
        c.add(name.to_string(), user_name.to_string(), user_email.to_string());
    }
    c
}

fn type_text(text: &str, session: &mut Session, config: &mut Config) {
    for ch in text.chars() {
        handle_input(Key::Char(ch), session, config);
    }
}

fn press(key: Key, session: &mut Session, config: &mut Config) -> Effect {
    handle_input(key, session, config)
}

#[test]
fn menu_navigation_moves_without_wrapping() {
    let mut s = Session::new();
    let mut c = Config::new();
    press(Key::Up, &mut s, &mut c);
    assert_eq!(s.menu_cursor.index, 0);
    press(Key::Down, &mut s, &mut c);
    press(Key::Char('j'), &mut s, &mut c);
    assert_eq!(s.menu_cursor.index, 2);
    press(Key::Char('k'), &mut s, &mut c);
    assert_eq!(s.menu_cursor.index, 1);
    for _ in 0..10 {
        press(Key::Down, &mut s, &mut c);
    }
    assert_eq!(s.menu_cursor.index, 4);
}

#[test]
fn add_profile_scenario_stores_one_entry() {
    // Menu -> Enter on option 0 -> type the three fields -> back in Menu
    let mut s = Session::new();
    let mut c = Config::new();
    press(Key::Enter, &mut s, &mut c);
    assert_eq!(s.input_mode, InputMode::InputProfileName);
    type_text("work", &mut s, &mut c);
    press(Key::Enter, &mut s, &mut c);
    assert_eq!(s.input_mode, InputMode::InputUserName);
    type_text("Alice", &mut s, &mut c);
    press(Key::Enter, &mut s, &mut c);
    assert_eq!(s.input_mode, InputMode::InputUserEmail);
    type_text("alice@x.com", &mut s, &mut c);
    let eff = press(Key::Enter, &mut s, &mut c);
    assert_eq!(s.input_mode, InputMode::Normal);
    assert!(eff.save);
    assert!(eff.apply.is_none());
    assert_eq!(c.profiles.len(), 1);
    let g = c.get(&"work".to_string()).unwrap();
    assert_eq!(g.user_name, "Alice");
    assert_eq!(g.user_email, "alice@x.com");
    // buffers are cleared for the next flow
    assert!(s.profile_name.is_empty());
    assert!(s.user_name.is_empty());
    assert!(s.user_email.is_empty());
}

#[test]
fn enter_on_empty_required_field_changes_nothing() {
    let mut s = Session::new();
    let mut c = Config::new();
    press(Key::Enter, &mut s, &mut c);
    assert_eq!(s.input_mode, InputMode::InputProfileName);
    let eff = press(Key::Enter, &mut s, &mut c);
    assert_eq!(s.input_mode, InputMode::InputProfileName);
    assert!(!eff.save);
    // same guard on the two later fields
    type_text("work", &mut s, &mut c);
    press(Key::Enter, &mut s, &mut c);
    press(Key::Enter, &mut s, &mut c);
    assert_eq!(s.input_mode, InputMode::InputUserName);
    type_text("Alice", &mut s, &mut c);
    press(Key::Enter, &mut s, &mut c);
    press(Key::Enter, &mut s, &mut c);
    assert_eq!(s.input_mode, InputMode::InputUserEmail);
    assert_eq!(c.profiles.len(), 0);
}

#[test]
fn backspace_edits_the_draft() {
    let mut s = Session::new();
    let mut c = Config::new();
    press(Key::Enter, &mut s, &mut c);
    type_text("worq", &mut s, &mut c);
    press(Key::Backspace, &mut s, &mut c);
    type_text("k", &mut s, &mut c);
    assert_eq!(s.profile_name, "work");
    // backspace on an empty draft is a no-op
    for _ in 0..6 {
        press(Key::Backspace, &mut s, &mut c);
    }
    assert_eq!(s.profile_name, "");
    press(Key::Backspace, &mut s, &mut c);
    assert_eq!(s.profile_name, "");
}

#[test]
fn esc_aborts_the_add_flow_and_clears_drafts() {
    let mut s = Session::new();
    let mut c = Config::new();
    press(Key::Enter, &mut s, &mut c);
    type_text("work", &mut s, &mut c);
    press(Key::Enter, &mut s, &mut c);
    type_text("Alice", &mut s, &mut c);
    press(Key::Esc, &mut s, &mut c);
    assert_eq!(s.input_mode, InputMode::Normal);
    assert!(s.profile_name.is_empty());
    assert!(s.user_name.is_empty());
    assert_eq!(c.profiles.len(), 0);
}

#[test]
fn delete_scenario_confirm_no_then_yes() {
    // from the delete list with ["work", "home"], cursor on "home"
    let mut s = Session::new();
    let mut c = store_with(&[("work", "A", "a@a"), ("home", "B", "b@b")]);
    press(Key::Down, &mut s, &mut c);
    press(Key::Down, &mut s, &mut c);
    press(Key::Down, &mut s, &mut c);
    assert_eq!(s.menu_cursor.index, 3);
    press(Key::Enter, &mut s, &mut c);
    assert_eq!(s.input_mode, InputMode::DeleteProfile);
    press(Key::Down, &mut s, &mut c);
    press(Key::Enter, &mut s, &mut c);
    assert_eq!(s.input_mode, InputMode::ConfirmDeleteProfile);
    assert_eq!(s.selected_profile_to_delete, Some("home".to_string()));

    // 'n': nothing deleted, target dropped
    let eff = press(Key::Char('n'), &mut s, &mut c);
    assert_eq!(s.input_mode, InputMode::Normal);
    assert!(!eff.save);
    assert!(s.selected_profile_to_delete.is_none());
    assert!(c.contains(&"home".to_string()));

    // same selection again, then 'y': deleted and saved. The menu cursor
    // still rests on the delete option.
    assert_eq!(s.menu_cursor.index, 3);
    press(Key::Enter, &mut s, &mut c);
    press(Key::Char('j'), &mut s, &mut c);
    press(Key::Enter, &mut s, &mut c);
    let eff = press(Key::Char('y'), &mut s, &mut c);
    assert_eq!(s.input_mode, InputMode::Normal);
    assert!(eff.save);
    assert!(s.selected_profile_to_delete.is_none());
    assert!(!c.contains(&"home".to_string()));
    assert_eq!(c.list_names(), vec!["work".to_string()]);
}

#[test]
fn unrecognized_key_changes_nothing_in_any_mode() {
    // drive the session into each mode in turn and press 'x' there
    let mut s = Session::new();
    let mut c = store_with(&[("work", "A", "a@a")]);

    let check_noop = |s: &mut Session, c: &mut Config| {
        let mode_before = s.input_mode;
        let names_before = c.list_names();
        let buffers_before = (
            s.profile_name.clone(),
            s.user_name.clone(),
            s.user_email.clone(),
        );
        let eff = handle_input(Key::Char('x'), s, c);
        assert_eq!(s.input_mode, mode_before);
        assert_eq!(c.list_names(), names_before);
        assert_eq!(s.profile_name, buffers_before.0);
        assert_eq!(s.user_name, buffers_before.1);
        assert_eq!(s.user_email, buffers_before.2);
        assert!(!eff.save);
        assert!(eff.apply.is_none());
    };

    // Normal ('x' is not a menu key)
    check_noop(&mut s, &mut c);

    // ListingProfiles
    for _ in 0..4 {
        press(Key::Down, &mut s, &mut c);
    }
    press(Key::Enter, &mut s, &mut c);
    assert_eq!(s.input_mode, InputMode::ListingProfiles);
    check_noop(&mut s, &mut c);
    press(Key::Char('b'), &mut s, &mut c);

    // DeleteProfile list, then ConfirmDeleteProfile; the cursor still rests
    // on the listing option, one below the delete option
    press(Key::Up, &mut s, &mut c);
    press(Key::Enter, &mut s, &mut c);
    assert_eq!(s.input_mode, InputMode::DeleteProfile);
    check_noop(&mut s, &mut c);
    press(Key::Enter, &mut s, &mut c);
    assert_eq!(s.input_mode, InputMode::ConfirmDeleteProfile);
    check_noop(&mut s, &mut c);
    assert!(c.contains(&"work".to_string()));
    press(Key::Esc, &mut s, &mut c);
    assert_eq!(s.input_mode, InputMode::Normal);
}

#[test]
fn switch_scenario_applies_identity_and_marks_active() {
    let mut s = Session::new();
    let mut c = store_with(&[("work", "Alice", "alice@x.com"), ("home", "B", "b@b")]);
    press(Key::Down, &mut s, &mut c);
    press(Key::Enter, &mut s, &mut c);
    assert_eq!(s.input_mode, InputMode::SwitchProfile);
    let eff = press(Key::Enter, &mut s, &mut c);
    assert_eq!(s.input_mode, InputMode::Normal);
    assert!(eff.save);
    let applied = eff.apply.expect("switching must hand the identity to apply");
    assert_eq!(applied.user_name, "Alice");
    assert_eq!(applied.user_email, "alice@x.com");
    assert_eq!(c.current_profile, Some("work".to_string()));
}

#[test]
fn switch_on_empty_store_is_a_noop() {
    let mut s = Session::new();
    let mut c = Config::new();
    press(Key::Down, &mut s, &mut c);
    press(Key::Enter, &mut s, &mut c);
    assert_eq!(s.input_mode, InputMode::SwitchProfile);
    let eff = press(Key::Enter, &mut s, &mut c);
    assert_eq!(s.input_mode, InputMode::SwitchProfile);
    assert!(!eff.save);
    assert!(eff.apply.is_none());
}

#[test]
fn update_scenario_rewrites_pending_profile() {
    let mut s = Session::new();
    let mut c = store_with(&[("work", "Alice", "alice@x.com"), ("home", "B", "b@b")]);
    press(Key::Down, &mut s, &mut c);
    press(Key::Down, &mut s, &mut c);
    press(Key::Enter, &mut s, &mut c);
    assert_eq!(s.input_mode, InputMode::UpdateProfile);
    press(Key::Char('j'), &mut s, &mut c);
    press(Key::Enter, &mut s, &mut c);
    assert_eq!(s.input_mode, InputMode::UpdateProfileUserName);
    assert_eq!(s.selected_profile_to_update, Some("home".to_string()));
    type_text("Bob", &mut s, &mut c);
    press(Key::Enter, &mut s, &mut c);
    assert_eq!(s.input_mode, InputMode::UpdateProfileUserEmail);
    type_text("bob@h.org", &mut s, &mut c);
    let eff = press(Key::Enter, &mut s, &mut c);
    assert_eq!(s.input_mode, InputMode::Normal);
    assert!(eff.save);
    assert!(s.selected_profile_to_update.is_none());
    let g = c.get(&"home".to_string()).unwrap();
    assert_eq!(g.user_name, "Bob");
    assert_eq!(g.user_email, "bob@h.org");
    assert_eq!(c.get(&"work".to_string()).unwrap().user_name, "Alice");
}

#[test]
fn update_cancel_drops_pending_target() {
    let mut s = Session::new();
    let mut c = store_with(&[("work", "Alice", "alice@x.com")]);
    press(Key::Down, &mut s, &mut c);
    press(Key::Down, &mut s, &mut c);
    press(Key::Enter, &mut s, &mut c);
    press(Key::Enter, &mut s, &mut c);
    assert_eq!(s.input_mode, InputMode::UpdateProfileUserName);
    assert!(s.selected_profile_to_update.is_some());
    press(Key::Esc, &mut s, &mut c);
    assert_eq!(s.input_mode, InputMode::Normal);
    assert!(s.selected_profile_to_update.is_none());
    assert_eq!(c.get(&"work".to_string()).unwrap().user_name, "Alice");
}

#[test]
fn delete_list_on_empty_store_refuses_selection() {
    let mut s = Session::new();
    let mut c = Config::new();
    for _ in 0..3 {
        press(Key::Down, &mut s, &mut c);
    }
    press(Key::Enter, &mut s, &mut c);
    assert_eq!(s.input_mode, InputMode::DeleteProfile);
    let eff = press(Key::Enter, &mut s, &mut c);
    assert_eq!(s.input_mode, InputMode::DeleteProfile);
    assert!(!eff.save);
    press(Key::Esc, &mut s, &mut c);
    assert_eq!(s.input_mode, InputMode::Normal);
}
