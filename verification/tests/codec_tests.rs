//! The wire codec: every message kind survives the round trip, and
//! malformed frames are rejected.

use anyrun_broker::codec::{decode_request, decode_response, encode_request, encode_response};
use anyrun_broker::protocol::{
    HandleOutcome, MatchEntry, ProviderInfo, Request, Response,
};

fn full_entry() -> MatchEntry {
    MatchEntry {
        title: "Result — ünïcödé".to_string(),
        description: Some("a description".to_string()),
        icon: Some("icon-name".to_string()),
        id: Some(42),
        rich_text: true,
    }
}

fn bare_entry() -> MatchEntry {
    MatchEntry {
        title: String::new(),
        description: None,
        icon: None,
        id: None,
        rich_text: false,
    }
}

fn info() -> ProviderInfo {
    ProviderInfo { name: "Applications".to_string(), icon: "system-run".to_string() }
}

#[test]
fn request_round_trips() {
    let cases = vec![
        Request::Query("hello wörld".to_string()),
        Request::Query(String::new()),
        Request::Handle { provider: info(), selection: full_entry() },
        Request::Handle { provider: info(), selection: bare_entry() },
        Request::Reset,
        Request::Quit,
    ];
    for req in cases {
        let bytes = encode_request(&req);
        let back = decode_request(&bytes);
        assert_eq!(back, Some(req));
    }
}

#[test]
fn response_round_trips() {
    let cases = vec![
        Response::Ready { providers: vec![] },
        Response::Ready { providers: vec![info(), info()] },
        Response::Matches { provider: info(), entries: vec![full_entry(), bare_entry()] },
        Response::Matches { provider: info(), entries: vec![] },
        Response::Handled { provider: info(), outcome: HandleOutcome::Close },
        Response::Handled { provider: info(), outcome: HandleOutcome::KeepOpen },
        Response::Handled {
            provider: info(),
            outcome: HandleOutcome::RefreshQuery("again".to_string()),
        },
    ];
    for resp in cases {
        let bytes = encode_response(&resp);
        let back = decode_response(&bytes);
        assert_eq!(back, Some(resp));
    }
}

#[test]
fn empty_frame_is_rejected() {
    assert_eq!(decode_request(&vec![]), None);
    assert_eq!(decode_response(&vec![]), None);
}

#[test]
fn unknown_tag_is_rejected() {
    assert_eq!(decode_request(&vec![9u8]), None);
    assert_eq!(decode_response(&vec![0u8]), None);
}

#[test]
fn truncated_frame_is_rejected() {
    let req = Request::Query("something".to_string());
    let mut bytes = encode_request(&req);
    bytes.pop();
    assert_eq!(decode_request(&bytes), None);
}

#[test]
fn trailing_bytes_are_rejected() {
    let req = Request::Reset;
    let mut bytes = encode_request(&req);
    bytes.push(0);
    assert_eq!(decode_request(&bytes), None);
}

#[test]
fn invalid_utf8_is_rejected() {
    // A Query frame whose string bytes are not UTF-8: tag, length 1,
    // then a lone continuation byte.
    let bytes = vec![1u8, 1, 0, 0, 0, 0, 0, 0, 0, 0xFF];
    assert_eq!(decode_request(&bytes), None);
}
