//! The desktop helpers: universal actions, terminal choice, window
//! identifiers, format detection and free file names.

use anyrun_broker::actions::{
    get_internal_actions, is_youtube, shell_command_for, ActionTarget, InternalOp,
    UniversalAction, Validator,
};
use anyrun_broker::category::InputCategory;
use anyrun_broker::saving::{detect_format, get_available_path};
use anyrun_broker::terminal::get_available_terminal;
use anyrun_broker::window::first_window_id;

fn strings(v: &[&str]) -> Vec<String> {
    v.iter().map(|s| s.to_string()).collect()
}

#[test]
fn internal_actions_are_the_known_three() {
    let actions = get_internal_actions();
    assert_eq!(actions.len(), 3);
    assert_eq!(actions[0].name, "Download Youtube Video");
    assert_eq!(actions[0].category, InputCategory::Url);
    assert_eq!(actions[0].validator, Some(Validator::Youtube));
    assert_eq!(actions[1].name, "Save to Desktop");
    assert_eq!(actions[1].target, ActionTarget::Internal(InternalOp::SaveToDesktop));
    assert_eq!(actions[2].name, "Open path with neovim");
    assert_eq!(actions[2].validator, None);
}

#[test]
fn youtube_validator_checks_the_host() {
    assert!(is_youtube("https://www.youtube.com/watch?v=abc"));
    assert!(is_youtube("https://youtu.be/abc"));
    assert!(!is_youtube("https://example.com/watch?v=abc"));
    assert!(!is_youtube("not a url"));
}

#[test]
fn action_matching_honours_category_and_validator() {
    let all = UniversalAction {
        name: "any".to_string(),
        name_lowercase: "any".to_string(),
        category: InputCategory::All,
        target: ActionTarget::Internal(InternalOp::SaveToDesktop),
        validator: None,
    };
    assert!(all.is_match("whatever", InputCategory::Plaintext));
    let strict = UniversalAction {
        name: "video".to_string(),
        name_lowercase: "video".to_string(),
        category: InputCategory::Url,
        target: ActionTarget::Shell("cmd {clip}".to_string()),
        validator: Some(Validator::Youtube),
    };
    assert!(!strict.is_match("https://www.youtube.com/w", InputCategory::Plaintext));
    assert!(strict.is_match("https://www.youtube.com/w", InputCategory::Url));
    assert!(!strict.is_match("https://example.com/w", InputCategory::Url));
}

#[test]
fn clip_placeholder_is_substituted() {
    assert_eq!(
        shell_command_for("yt-dlp '{clip}'", "https://a.example"),
        "yt-dlp 'https://a.example'"
    );
    assert_eq!(shell_command_for("{clip} and {clip}", "x"), "x and x");
    assert_eq!(shell_command_for("no placeholder", "x"), "no placeholder");
}

#[test]
fn terminal_preference_order_is_kept() {
    assert_eq!(
        get_available_terminal(&strings(&["xterm", "alacritty"])),
        Some("alacritty".to_string())
    );
    assert_eq!(get_available_terminal(&strings(&["xterm"])), Some("xterm".to_string()));
    assert_eq!(get_available_terminal(&strings(&["nothing-known"])), None);
    assert_eq!(get_available_terminal(&strings(&[])), None);
}

#[test]
fn window_id_is_the_first_line_trimmed() {
    assert_eq!(first_window_id("  0x123 \nmore\n"), Some("0x123".to_string()));
    assert_eq!(first_window_id("0x9\r\nrest"), Some("0x9".to_string()));
    assert_eq!(first_window_id(""), None);
    assert_eq!(first_window_id("   \n"), None);
}

#[test]
fn formats_are_guessed_from_shape() {
    assert_eq!(detect_format("{\"a\": 1}"), "json");
    assert_eq!(detect_format("  [1, 2]  "), "json");
    assert_eq!(detect_format("<?xml version=\"1.0\"?><a/>"), "xml");
    assert_eq!(detect_format("<?php echo 1;"), "php");
    assert_eq!(detect_format("#!/bin/sh\ndate"), "sh");
    assert_eq!(detect_format("fn f() { let x = 0; match x { _ => {} } }"), "rs");
    assert_eq!(detect_format("interface A {}"), "ts");
    assert_eq!(detect_format("var x = 1;"), "js");
    assert_eq!(detect_format("a,b,c\n1,2,3"), "csv");
    assert_eq!(detect_format("plain words"), "md");
}

#[test]
fn free_file_name_takes_the_first_gap() {
    let dir = "/home/u/Desktop".to_string();
    assert_eq!(
        get_available_path(&dir, "output", "json", &strings(&[])),
        "/home/u/Desktop/output.json"
    );
    assert_eq!(
        get_available_path(&dir, "output", "json", &strings(&["/home/u/Desktop/output.json"])),
        "/home/u/Desktop/output01.json"
    );
    assert_eq!(
        get_available_path(
            &dir,
            "output",
            "json",
            &strings(&[
                "/home/u/Desktop/output.json",
                "/home/u/Desktop/output01.json",
                "/home/u/Desktop/output02.json",
            ]),
        ),
        "/home/u/Desktop/output03.json"
    );
}
