//! The session engine driven through whole scenarios: handshake, queries,
//! stale results, selections, reset and shutdown.

use anyrun_broker::protocol::{HandleOutcome, MatchEntry, ProviderInfo, Request, Response};
use anyrun_broker::registry::Registry;
use anyrun_broker::session::{Action, Event, Phase, Session};

fn entry(title: &str) -> MatchEntry {
    MatchEntry {
        title: title.to_string(),
        description: None,
        icon: None,
        id: None,
        rich_text: false,
    }
}

fn info(name: &str, icon: &str) -> ProviderInfo {
    ProviderInfo { name: name.to_string(), icon: icon.to_string() }
}

fn two_provider_session() -> Session {
    let mut reg = Registry::new("/etc/anyrun".to_string());
    reg.register(info("A", "icon-a"));
    reg.register(info("B", "icon-b"));
    Session::begin(reg)
}

#[test]
fn ready_is_sent_once_and_first() {
    let mut s = two_provider_session();
    let out = s.handshake();
    assert_eq!(out.len(), 1);
    match &out[0] {
        Action::Reply(Response::Ready { providers }) => {
            assert_eq!(providers.len(), 2);
            assert_eq!(providers[0].name, "A");
            assert_eq!(providers[1].name, "B");
        }
        other => panic!("expected the Ready reply, got {:?}", other),
    }
    // Nothing later ever carries the handshake again.
    let out = s.step(Event::Client(Request::Query("x".to_string())));
    for a in &out {
        assert!(!matches!(a, Action::Reply(Response::Ready { .. })));
    }
}

#[test]
fn query_cancels_and_fans_out() {
    let mut s = two_provider_session();
    s.handshake();
    let out = s.step(Event::Client(Request::Query("x".to_string())));
    assert_eq!(out.len(), 3);
    assert_eq!(out[0], Action::CancelAll);
    assert_eq!(out[1], Action::StartWork { epoch: 1, index: 0, text: "x".to_string() });
    assert_eq!(out[2], Action::StartWork { epoch: 1, index: 1, text: "x".to_string() });
}

#[test]
fn fast_provider_is_not_blocked_by_slow_one() {
    // Provider A answers first with two entries; B later with one.  A's
    // reply is emitted immediately, strictly before B's.
    let mut s = two_provider_session();
    s.handshake();
    s.step(Event::Client(Request::Query("x".to_string())));
    let out_a = s.step(Event::WorkDone {
        epoch: 1,
        index: 0,
        entries: vec![entry("a1"), entry("a2")],
    });
    assert_eq!(out_a.len(), 1);
    match &out_a[0] {
        Action::Reply(Response::Matches { provider, entries }) => {
            assert_eq!(provider.name, "A");
            assert_eq!(entries.len(), 2);
        }
        other => panic!("expected A's matches, got {:?}", other),
    }
    let out_b = s.step(Event::WorkDone { epoch: 1, index: 1, entries: vec![entry("b1")] });
    assert_eq!(out_b.len(), 1);
    match &out_b[0] {
        Action::Reply(Response::Matches { provider, entries }) => {
            assert_eq!(provider.name, "B");
            assert_eq!(entries.len(), 1);
        }
        other => panic!("expected B's matches, got {:?}", other),
    }
}

#[test]
fn stale_query_results_never_reach_the_client() {
    // Query "a" then immediately query "b": work tagged with "a"'s epoch
    // may still complete, but nothing of it is emitted.
    let mut s = two_provider_session();
    s.handshake();
    s.step(Event::Client(Request::Query("a".to_string())));
    let epoch_a = 1u64;
    s.step(Event::Client(Request::Query("b".to_string())));
    let out = s.step(Event::WorkDone { epoch: epoch_a, index: 0, entries: vec![entry("a1")] });
    assert!(out.is_empty());
    let out = s.step(Event::WorkDone { epoch: 2, index: 0, entries: vec![entry("b1")] });
    assert_eq!(out.len(), 1);
    match &out[0] {
        Action::Reply(Response::Matches { provider, .. }) => assert_eq!(provider.name, "A"),
        other => panic!("expected current matches, got {:?}", other),
    }
}

#[test]
fn duplicate_completion_for_one_epoch_is_dropped() {
    let mut s = two_provider_session();
    s.handshake();
    s.step(Event::Client(Request::Query("x".to_string())));
    let first = s.step(Event::WorkDone { epoch: 1, index: 0, entries: vec![entry("a1")] });
    assert_eq!(first.len(), 1);
    let second = s.step(Event::WorkDone { epoch: 1, index: 0, entries: vec![entry("a1")] });
    assert!(second.is_empty());
}

#[test]
fn unnamed_provider_handle_is_a_no_op() {
    // A selection naming a provider that was never registered: no frame
    // goes out, and the connection stays open and usable.
    let mut s = two_provider_session();
    s.handshake();
    let out = s.step(Event::Client(Request::Handle {
        provider: info("Ghost", "none"),
        selection: entry("e"),
    }));
    assert!(out.is_empty());
    assert_eq!(s.phase, Phase::Ready);
    let out = s.step(Event::Client(Request::Query("still works".to_string())));
    assert_eq!(out.len(), 3);
}

#[test]
fn selection_is_handled_by_name_and_echoes_the_descriptor() {
    // The client's copy of the descriptor carries another icon than the
    // registry holds for the same name; the Handled frame echoes the
    // client's copy, exactly as received.
    let mut s = two_provider_session();
    s.handshake();
    let out = s.step(Event::Client(Request::Handle {
        provider: info("B", "client-icon"),
        selection: entry("picked"),
    }));
    assert_eq!(out.len(), 1);
    assert_eq!(
        out[0],
        Action::StartSelection {
            index: 1,
            provider: info("B", "client-icon"),
            selection: entry("picked"),
        }
    );
    let out = s.step(Event::SelectionDone {
        provider: info("B", "client-icon"),
        outcome: HandleOutcome::Close,
    });
    assert_eq!(out.len(), 1);
    match &out[0] {
        Action::Reply(Response::Handled { provider, outcome }) => {
            assert_eq!(provider, &info("B", "client-icon"));
            assert_eq!(*outcome, HandleOutcome::Close);
        }
        other => panic!("expected the Handled reply, got {:?}", other),
    }
}

#[test]
fn reset_twice_equals_reset_once() {
    // Idempotence of reset on everything a provider can observe.
    let mut s = two_provider_session();
    s.handshake();
    s.step(Event::Client(Request::Query("x".to_string())));
    let out = s.step(Event::Client(Request::Reset));
    assert_eq!(out, vec![Action::CancelAll, Action::InitProviders]);
    let once_inits: Vec<Option<String>> =
        s.registry.providers.iter().map(|p| p.last_init.clone()).collect();
    let once_pending = s.pending.clone();
    let out = s.step(Event::Client(Request::Reset));
    assert_eq!(out, vec![Action::CancelAll, Action::InitProviders]);
    let twice_inits: Vec<Option<String>> =
        s.registry.providers.iter().map(|p| p.last_init.clone()).collect();
    assert_eq!(once_inits, twice_inits);
    assert_eq!(once_pending, s.pending);
    assert!(s.pending.is_empty());
    assert_eq!(s.phase, Phase::Ready);
}

#[test]
fn reset_discards_outstanding_work() {
    let mut s = two_provider_session();
    s.handshake();
    s.step(Event::Client(Request::Query("x".to_string())));
    s.step(Event::Client(Request::Reset));
    let out = s.step(Event::WorkDone { epoch: 1, index: 0, entries: vec![entry("late")] });
    assert!(out.is_empty());
}

#[test]
fn quit_closes_and_stops_the_broker() {
    let mut s = two_provider_session();
    s.handshake();
    let out = s.step(Event::Client(Request::Quit));
    assert_eq!(out, vec![Action::CloseConnection { quit: true }]);
    assert_eq!(s.phase, Phase::Closed { quit: true });
    // Closed is terminal: later events are inert.
    let out = s.step(Event::Client(Request::Query("x".to_string())));
    assert!(out.is_empty());
}

#[test]
fn end_of_stream_is_clean_shutdown() {
    let mut s = two_provider_session();
    s.handshake();
    let out = s.step(Event::EndOfStream);
    assert_eq!(out, vec![Action::CloseConnection { quit: false }]);
    assert_eq!(s.phase, Phase::Closed { quit: false });
    let out = s.step(Event::EndOfStream);
    assert!(out.is_empty());
}
