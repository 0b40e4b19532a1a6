//! Input classification and icons: the detected kind for each shape of
//! clipboard text, the extension mapping, and the icon names.

use anyrun_broker::category::InputCategory;
use anyrun_broker::icon::{icon_identifier, icon_path_decision, IconDecision, SystemIcon};

#[test]
fn check_url() {
    let url = "https://www.youtube.com/watch?v=CRLEfo_4X0M";
    let input = InputCategory::detect(url);
    assert_eq!(input, InputCategory::Url);
}

#[test]
fn detects_ip_addresses() {
    assert_eq!(InputCategory::detect("192.168.1.1"), InputCategory::IpAddress);
    assert_eq!(InputCategory::detect("::1"), InputCategory::IpAddress);
    assert_eq!(InputCategory::detect("2001:db8::8a2e:370:7334"), InputCategory::IpAddress);
    assert_eq!(InputCategory::detect("::ffff:192.168.0.1"), InputCategory::IpAddress);
    // Leading zeroes and out-of-range octets are not addresses.
    assert_ne!(InputCategory::detect("192.168.01.1"), InputCategory::IpAddress);
    assert_ne!(InputCategory::detect("256.1.1.1"), InputCategory::IpAddress);
}

#[test]
fn detects_colors_emails_and_hashes() {
    assert_eq!(InputCategory::detect("#ff00aa"), InputCategory::Color);
    assert_eq!(InputCategory::detect("#abc"), InputCategory::Color);
    assert_eq!(InputCategory::detect("someone@example.com"), InputCategory::Email);
    assert_eq!(
        InputCategory::detect("0123456789abcdef0123456789abcdef01234567"),
        InputCategory::GitHash
    );
    assert_ne!(InputCategory::detect("not an@email"), InputCategory::Email);
}

#[test]
fn detects_paths_json_math_and_shell() {
    assert_eq!(InputCategory::detect("/usr/bin/ls"), InputCategory::FilePath);
    assert_eq!(InputCategory::detect("./relative"), InputCategory::FilePath);
    assert_eq!(InputCategory::detect("~/home"), InputCategory::FilePath);
    assert_eq!(InputCategory::detect("{\"a\": 1}"), InputCategory::Json);
    assert_eq!(InputCategory::detect("[1, 2, 3]"), InputCategory::Json);
    assert_eq!(InputCategory::detect("1 + 2 * 3"), InputCategory::MathExpression);
    assert_eq!(InputCategory::detect("sudo apt upgrade"), InputCategory::ShellCommand);
    assert_eq!(InputCategory::detect("$ ls -la"), InputCategory::ShellCommand);
}

#[test]
fn detects_code_dates_and_plaintext() {
    assert_eq!(InputCategory::detect("fn main() {}"), InputCategory::Code);
    assert_eq!(InputCategory::detect("tomorrow"), InputCategory::DateTime);
    assert_eq!(InputCategory::detect("just some words"), InputCategory::Plaintext);
    assert_eq!(InputCategory::detect(""), InputCategory::Plaintext);
    assert_eq!(InputCategory::detect("   "), InputCategory::Plaintext);
}

#[test]
fn category_icons_are_fixed() {
    assert_eq!(InputCategory::Json.get_icon(), "application-json");
    assert_eq!(InputCategory::Url.get_icon(), "text-html");
    assert_eq!(InputCategory::Plaintext.get_icon(), "text-x-generic");
    assert_eq!(InputCategory::IpAddress.get_icon(), "network-workgroup");
}

#[test]
fn system_icon_names() {
    assert_eq!(SystemIcon::Settings.as_str(), "preferences-system");
    assert_eq!(SystemIcon::Terminal.as_str(), "utilities-terminal");
    assert_eq!(SystemIcon::custom("mine".to_string()).as_str(), "text-x-generic");
    assert_eq!(SystemIcon::default(), SystemIcon::FileText);
}

#[test]
fn extension_icons_are_case_insensitive() {
    assert_eq!(SystemIcon::from_ext("rs"), SystemIcon::Rust);
    assert_eq!(SystemIcon::from_ext("RS"), SystemIcon::Rust);
    assert_eq!(SystemIcon::from_ext("JPEG"), SystemIcon::FileImage);
    assert_eq!(SystemIcon::from_ext("tar"), SystemIcon::FileArchive);
    assert_eq!(SystemIcon::from_ext("unknown"), SystemIcon::Folder);
}

#[test]
fn icon_identifier_strips_scheme_and_path() {
    assert_eq!(icon_identifier("https://github.com/owner/repo"), "github.com");
    assert_eq!(icon_identifier("http://example.org"), "example.org");
    assert_eq!(icon_identifier("plain-name"), "plain-name");
    assert_eq!(icon_identifier("name/with/path"), "name");
}

#[test]
fn icon_path_decision_cases() {
    // No scheme marker: the identifier is used as the icon name.
    match icon_path_decision("duckduckgo", &None, false) {
        IconDecision::Name(n) => assert_eq!(n, "duckduckgo"),
        other => panic!("expected a plain name, got {:?}", other),
    }
    // A scheme but no home directory: the generic search icon.
    match icon_path_decision("https://example.com/q", &None, false) {
        IconDecision::Name(n) => assert_eq!(n, "system-search"),
        other => panic!("expected the fallback name, got {:?}", other),
    }
    // Cached: the cache path.
    match icon_path_decision("https://example.com/q", &Some("/home/u".to_string()), true) {
        IconDecision::CachedFile(p) => {
            assert_eq!(p, "/home/u/.config/anyrun/anyrun-favicons/example.com.png")
        }
        other => panic!("expected the cached path, got {:?}", other),
    }
    // Not cached: fall back and fetch.
    match icon_path_decision("https://example.com/q", &Some("/home/u".to_string()), false) {
        IconDecision::FetchAndFallback(u) => assert!(u.contains("example.com")),
        other => panic!("expected a fetch, got {:?}", other),
    }
}
