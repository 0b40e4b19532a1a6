//! Provider resolution on the search path, registry lookups, and the
//! startup choice of a configuration directory.

use anyrun_broker::protocol::ProviderInfo;
use anyrun_broker::registry::{choose_config_dir, find_plugin, Registry};

fn strings(v: &[&str]) -> Vec<String> {
    v.iter().map(|s| s.to_string()).collect()
}

#[test]
fn absolute_existing_path_is_used_verbatim() {
    let dirs = strings(&["/one", "/two"]);
    let existing = strings(&["/abs/bar"]);
    let r = find_plugin(&"/abs/bar".to_string(), &dirs, &existing);
    assert_eq!(r, Some("/abs/bar".to_string()));
}

#[test]
fn first_search_path_entry_wins() {
    // "foo" is only in the second directory; "/abs/bar" resolves through
    // its absolute path regardless of the search path.
    let dirs = strings(&["/dir1", "/dir2"]);
    let existing = strings(&["/dir2/foo", "/abs/bar"]);
    assert_eq!(find_plugin(&"foo".to_string(), &dirs, &existing), Some("/dir2/foo".to_string()));
    assert_eq!(
        find_plugin(&"/abs/bar".to_string(), &dirs, &existing),
        Some("/abs/bar".to_string())
    );
}

#[test]
fn literal_join_beats_library_transform() {
    let dirs = strings(&["/d"]);
    let existing = strings(&["/d/foo", "/d/libfoo.so"]);
    assert_eq!(find_plugin(&"foo".to_string(), &dirs, &existing), Some("/d/foo".to_string()));
}

#[test]
fn library_name_transform_applies() {
    let dirs = strings(&["/d1", "/d2"]);
    let existing = strings(&["/d2/libmy_plugin.so"]);
    assert_eq!(
        find_plugin(&"my-plugin".to_string(), &dirs, &existing),
        Some("/d2/libmy_plugin.so".to_string())
    );
}

#[test]
fn missing_provider_resolves_to_nothing() {
    let dirs = strings(&["/d1"]);
    let existing = strings(&[]);
    assert_eq!(find_plugin(&"ghost".to_string(), &dirs, &existing), None);
}

#[test]
fn lookup_is_last_registration_wins() {
    let mut reg = Registry::new("/cfg".to_string());
    reg.register(ProviderInfo { name: "dup".to_string(), icon: "one".to_string() });
    reg.register(ProviderInfo { name: "other".to_string(), icon: "x".to_string() });
    reg.register(ProviderInfo { name: "dup".to_string(), icon: "two".to_string() });
    assert_eq!(reg.lookup(&"dup".to_string()), Some(2));
    assert_eq!(reg.lookup(&"other".to_string()), Some(1));
    assert_eq!(reg.lookup(&"ghost".to_string()), None);
}

#[test]
fn initialize_all_overwrites_not_accumulates() {
    let mut reg = Registry::new("/cfg".to_string());
    reg.register(ProviderInfo { name: "a".to_string(), icon: "i".to_string() });
    reg.initialize_all();
    let once: Vec<Option<String>> =
        reg.providers.iter().map(|p| p.last_init.clone()).collect();
    reg.initialize_all();
    let twice: Vec<Option<String>> =
        reg.providers.iter().map(|p| p.last_init.clone()).collect();
    assert_eq!(once, twice);
    assert_eq!(once, vec![Some("/cfg".to_string())]);
}

#[test]
fn config_dir_explicit_choice_wins() {
    let candidates = strings(&["/etc/xdg/anyrun", "/etc/anyrun"]);
    let existing = strings(&["/etc/anyrun"]);
    let r = choose_config_dir(
        Some("/custom".to_string()),
        "/home/u/.config/anyrun".to_string(),
        true,
        &candidates,
        &existing,
    );
    assert_eq!(r, "/custom");
}

#[test]
fn config_dir_prefers_user_dir_then_existing_default() {
    let candidates = strings(&["/etc/xdg/anyrun", "/etc/anyrun"]);
    let existing = strings(&["/etc/anyrun"]);
    let user = "/home/u/.config/anyrun".to_string();
    assert_eq!(
        choose_config_dir(None, user.clone(), true, &candidates, &existing),
        user.clone()
    );
    assert_eq!(
        choose_config_dir(None, user.clone(), false, &candidates, &existing),
        "/etc/anyrun"
    );
    let nothing = strings(&[]);
    assert_eq!(
        choose_config_dir(None, user, false, &candidates, &nothing),
        "/etc/xdg/anyrun"
    );
}
