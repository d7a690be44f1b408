use lit::config::Config;

fn store_with(entries: &[(&str, &str, &str)]) -> Config {
    let mut c = Config::new();
    for (name, user_name, user_email) in entries {
        c.add(name.to_string(), user_name.to_string(), user_email.to_string());
    }
    c
}

#[test]
fn new_store_is_empty() {
    let c = Config::new();
    assert_eq!(c.profiles.len(), 0);
    assert!(c.current_profile.is_none());
    assert_eq!(c.list_names().len(), 0);
}

#[test]
fn add_inserts_entry() {
    let c = store_with(&[("work", "Alice", "alice@x.com")]);
    assert_eq!(c.profiles.len(), 1);
    let g = c.get(&"work".to_string()).unwrap();
    assert_eq!(g.user_name, "Alice");
    assert_eq!(g.user_email, "alice@x.com");
}

#[test]
fn add_overwrites_existing_entry() {
    let mut c = store_with(&[("work", "Alice", "alice@x.com"), ("home", "Al", "al@h.org")]);
    c.add("work".to_string(), "Bob".to_string(), "bob@x.com".to_string());
    assert_eq!(c.profiles.len(), 2);
    let g = c.get(&"work".to_string()).unwrap();
    assert_eq!(g.user_name, "Bob");
    assert_eq!(g.user_email, "bob@x.com");
    // order is kept
    assert_eq!(c.list_names(), vec!["work".to_string(), "home".to_string()]);
}

#[test]
fn update_changes_fields_in_place() {
    let mut c = store_with(&[("work", "Alice", "alice@x.com"), ("home", "Al", "al@h.org")]);
    let changed = c.update(&"home".to_string(), "Ally".to_string(), "ally@h.org".to_string());
    assert!(changed);
    let g = c.get(&"home".to_string()).unwrap();
    assert_eq!(g.user_name, "Ally");
    assert_eq!(g.user_email, "ally@h.org");
    assert_eq!(c.list_names(), vec!["work".to_string(), "home".to_string()]);
}

#[test]
fn update_of_absent_name_is_a_noop() {
    let mut c = store_with(&[("work", "Alice", "alice@x.com")]);
    let changed = c.update(&"nope".to_string(), "X".to_string(), "x@x".to_string());
    assert!(!changed);
    assert_eq!(c.profiles.len(), 1);
    assert_eq!(c.get(&"work".to_string()).unwrap().user_name, "Alice");
}

#[test]
fn remove_deletes_entry_and_listing_omits_it() {
    let mut c = store_with(&[("work", "A", "a@a"), ("home", "B", "b@b"), ("oss", "C", "c@c")]);
    let changed = c.remove(&"home".to_string());
    assert!(changed);
    assert_eq!(c.list_names(), vec!["work".to_string(), "oss".to_string()]);
    assert!(c.get(&"home".to_string()).is_none());
}

#[test]
fn remove_of_absent_name_is_a_noop() {
    let mut c = store_with(&[("work", "A", "a@a")]);
    let changed = c.remove(&"nope".to_string());
    assert!(!changed);
    assert_eq!(c.profiles.len(), 1);
}

#[test]
fn remove_of_active_profile_clears_marker() {
    let mut c = store_with(&[("work", "A", "a@a"), ("home", "B", "b@b")]);
    assert!(c.set_current(&"home".to_string()));
    c.remove(&"home".to_string());
    assert!(c.current_profile.is_none());
    assert_eq!(c.list_names(), vec!["work".to_string()]);
}

#[test]
fn remove_of_other_profile_keeps_marker() {
    let mut c = store_with(&[("work", "A", "a@a"), ("home", "B", "b@b")]);
    assert!(c.set_current(&"home".to_string()));
    c.remove(&"work".to_string());
    assert_eq!(c.current_profile, Some("home".to_string()));
}

#[test]
fn set_current_of_absent_name_is_refused() {
    let mut c = store_with(&[("work", "A", "a@a")]);
    assert!(!c.set_current(&"nope".to_string()));
    assert!(c.current_profile.is_none());
}

#[test]
fn contains_reports_membership() {
    let c = store_with(&[("work", "A", "a@a")]);
    assert!(c.contains(&"work".to_string()));
    assert!(!c.contains(&"home".to_string()));
}

#[test]
fn wf_check_accepts_built_store_and_rejects_bad_marker() {
    let mut c = store_with(&[("work", "A", "a@a")]);
    assert!(c.wf_check());
    c.current_profile = Some("ghostly".to_string());
    assert!(!c.wf_check());
}
