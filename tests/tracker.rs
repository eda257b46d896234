use tez_events::event::Event;
use tez_events::json::Json;
use tez_events::node::FetchError;
use tez_events::tracker::{Action, Input, Phase, Tracker};

fn ev(level: u64, n: u64) -> Event {
    Event {
        level,
        emitter: "KT1".to_string(),
        payer: "tz1".to_string(),
        tag: "default".to_string(),
        data: Json::Nat(n),
        ty: Json::Null,
    }
}

fn sent_levels(a: &Action) -> Vec<u64> {
    match a {
        Action::Send(evs) => evs.iter().map(|e| e.level).collect(),
        other => panic!("expected a send, got {:?}", other),
    }
}

fn fetched(a: &Action) -> u64 {
    match a {
        Action::FetchBlock(l) => *l,
        other => panic!("expected a fetch, got {:?}", other),
    }
}

#[test]
fn sweep_from_zero_visits_every_level_in_order() {
    let mut t = Tracker::new();
    let mut a = t.step(Input::Head(Ok(3)));
    let mut delivered = vec![];
    for level in 0..=3u64 {
        assert_eq!(fetched(&a), level);
        let s = t.step(Input::Block(Ok(vec![ev(level, 0), ev(level, 1)])));
        delivered.extend(sent_levels(&s));
        a = t.step(Input::Delivered);
    }
    assert!(matches!(a, Action::QueryHead));
    assert_eq!(delivered, vec![0, 0, 1, 1, 2, 2, 3, 3]);
    assert_eq!(t.cursor, 4);
    assert_eq!(t.phase, Phase::AwaitHead);
}

#[test]
fn failed_fetch_is_retried_at_the_same_level() {
    let mut t = Tracker::new();
    assert_eq!(fetched(&t.step(Input::Head(Ok(2)))), 0);
    assert!(matches!(t.step(Input::Block(Ok(vec![]))), Action::Send(_)));
    assert_eq!(fetched(&t.step(Input::Delivered)), 1);
    for _ in 0..3 {
        assert!(matches!(t.step(Input::Block(Err(FetchError::DecodeFailure))), Action::Sleep));
        assert_eq!(t.cursor, 1);
        assert!(matches!(t.step(Input::Woke), Action::QueryHead));
        assert_eq!(fetched(&t.step(Input::Head(Ok(2)))), 1);
    }
    assert_eq!(sent_levels(&t.step(Input::Block(Ok(vec![ev(1, 9)])))), vec![1]);
    assert_eq!(t.cursor, 1);
    assert_eq!(fetched(&t.step(Input::Delivered)), 2);
    assert_eq!(t.cursor, 2);
}

#[test]
fn head_behind_cursor_only_sleeps() {
    let mut t = Tracker::new();
    assert_eq!(fetched(&t.step(Input::Head(Ok(0)))), 0);
    t.step(Input::Block(Ok(vec![])));
    assert!(matches!(t.step(Input::Delivered), Action::QueryHead));
    assert_eq!(t.cursor, 1);
    assert!(matches!(t.step(Input::Head(Ok(0))), Action::Sleep));
    assert_eq!(t.phase, Phase::Sleeping);
    assert!(matches!(t.step(Input::Woke), Action::QueryHead));
    assert_eq!(fetched(&t.step(Input::Head(Ok(1)))), 1);
}

#[test]
fn head_failure_stops() {
    let mut t = Tracker::new();
    assert!(matches!(t.step(Input::Head(Err(FetchError::UpstreamUnavailable(None)))), Action::Stop));
    assert_eq!(t.phase, Phase::Stopped);
    assert!(matches!(t.step(Input::Head(Ok(5))), Action::Stop));
}

#[test]
fn sink_failure_stops() {
    let mut t = Tracker::new();
    t.step(Input::Head(Ok(5)));
    t.step(Input::Block(Ok(vec![ev(0, 1)])));
    assert!(matches!(t.step(Input::SinkClosed), Action::Stop));
    assert_eq!(t.phase, Phase::Stopped);
    assert_eq!(t.cursor, 0);
}

#[test]
fn subscriptions_are_independent() {
    let mut a = Tracker::new();
    let mut b = Tracker::new();
    assert_eq!(fetched(&a.step(Input::Head(Ok(1)))), 0);
    assert_eq!(fetched(&b.step(Input::Head(Ok(1)))), 0);
    a.step(Input::Block(Ok(vec![ev(0, 1)])));
    b.step(Input::Block(Ok(vec![ev(0, 1)])));
    assert!(matches!(a.step(Input::SinkClosed), Action::Stop));
    assert_eq!(fetched(&b.step(Input::Delivered)), 1);
    assert_eq!(sent_levels(&b.step(Input::Block(Ok(vec![ev(1, 2)])))), vec![1]);
    assert!(matches!(b.step(Input::Delivered), Action::QueryHead));
    assert_eq!(b.cursor, 2);
    assert_eq!(a.phase, Phase::Stopped);
}

#[test]
fn unexpected_input_stops() {
    let mut t = Tracker::new();
    assert!(matches!(t.step(Input::Delivered), Action::Stop));
    assert_eq!(t.phase, Phase::Stopped);
}

#[test]
fn last_level_ends_tracking() {
    let mut t = Tracker { cursor: u64::MAX, phase: Phase::AwaitHead };
    assert_eq!(fetched(&t.step(Input::Head(Ok(u64::MAX)))), u64::MAX);
    t.step(Input::Block(Ok(vec![])));
    assert!(matches!(t.step(Input::Delivered), Action::Stop));
}
