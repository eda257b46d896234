use tez_events::event::Event;
use tez_events::extract::extract_events;
use tez_events::json::Json;

fn s(x: &str) -> Json {
    Json::Str(x.to_string())
}

fn obj(members: Vec<(&str, Json)>) -> Json {
    Json::Object(members.into_iter().map(|(k, v)| (k.to_string(), v)).collect())
}

fn arr(items: Vec<Json>) -> Json {
    Json::Array(items)
}

fn event_result(source: &str, tag: Option<&str>, payload: Json) -> Json {
    let mut m = vec![("kind", s("event")), ("type", obj(vec![("prim", s("nat"))])), ("source", s(source))];
    if let Some(t) = tag {
        m.push(("tag", s(t)));
    }
    m.push(("payload", payload));
    obj(m)
}

fn transaction(destination: &str, results: Vec<Json>) -> Json {
    obj(vec![
        ("kind", s("transaction")),
        ("destination", s(destination)),
        ("metadata", obj(vec![("internal_operation_results", arr(results))])),
    ])
}

fn block(batches: Vec<Json>) -> Json {
    obj(vec![("operations", arr(batches))])
}

fn manager_block(ops: Vec<Json>) -> Json {
    block(vec![arr(vec![]), arr(vec![]), arr(vec![]), arr(ops)])
}

fn is_nat(j: &Json, n: u64) -> bool {
    matches!(j, Json::Nat(m) if *m == n)
}

fn is_str(j: &Json, x: &str) -> bool {
    matches!(j, Json::Str(m) if m == x)
}

fn check(e: &Event, level: u64, emitter: &str, payer: &str, tag: &str) {
    assert_eq!(e.level, level);
    assert_eq!(e.emitter, emitter);
    assert_eq!(e.payer, payer);
    assert_eq!(e.tag, tag);
}

#[test]
fn single_event_at_level_seven() {
    let b = manager_block(vec![obj(vec![(
        "contents",
        arr(vec![transaction("KT1abc", vec![event_result("tz1xyz", Some("xrate"), Json::Nat(42))])]),
    )])]);
    let evs = extract_events(b, 7).unwrap();
    assert_eq!(evs.len(), 1);
    check(&evs[0], 7, "KT1abc", "tz1xyz", "xrate");
    assert!(is_nat(&evs[0].data, 42));
    match &evs[0].ty {
        Json::Object(m) => {
            assert_eq!(m.len(), 1);
            assert_eq!(m[0].0, "prim");
            assert!(is_str(&m[0].1, "nat"));
        }
        other => panic!("unexpected type {:?}", other),
    }
}

#[test]
fn four_empty_batches_give_no_events() {
    let b = block(vec![arr(vec![]), arr(vec![]), arr(vec![]), arr(vec![])]);
    assert_eq!(extract_events(b, 3).unwrap().len(), 0);
}

#[test]
fn missing_tag_is_default() {
    let b = manager_block(vec![obj(vec![(
        "contents",
        arr(vec![transaction("KT1abc", vec![event_result("tz1xyz", None, Json::Nat(1))])]),
    )])]);
    let evs = extract_events(b, 2).unwrap();
    assert_eq!(evs.len(), 1);
    check(&evs[0], 2, "KT1abc", "tz1xyz", "default");
}

#[test]
fn null_tag_is_default() {
    let r = obj(vec![
        ("kind", s("event")),
        ("type", Json::Null),
        ("source", s("tz1a")),
        ("tag", Json::Null),
        ("payload", Json::Null),
    ]);
    let b = manager_block(vec![obj(vec![("contents", arr(vec![transaction("KT1d", vec![r])]))])]);
    let evs = extract_events(b, 0).unwrap();
    assert_eq!(evs[0].tag, "default");
}

#[test]
fn events_in_first_three_batches_are_ignored() {
    let op = || {
        obj(vec![(
            "contents",
            arr(vec![transaction("KT1abc", vec![event_result("tz1xyz", Some("t"), Json::Nat(5))])]),
        )])
    };
    let b = block(vec![arr(vec![op()]), arr(vec![op()]), arr(vec![op()]), arr(vec![])]);
    assert_eq!(extract_events(b, 1).unwrap().len(), 0);
}

#[test]
fn fewer_than_four_batches_give_no_events() {
    let b = block(vec![arr(vec![]), arr(vec![]), arr(vec![])]);
    assert_eq!(extract_events(b, 1).unwrap().len(), 0);
    assert_eq!(extract_events(obj(vec![]), 1).unwrap().len(), 0);
    assert_eq!(extract_events(block(vec![]), 1).unwrap().len(), 0);
    assert_eq!(extract_events(obj(vec![("operations", Json::Nat(3))]), 1).unwrap().len(), 0);
}

#[test]
fn order_is_kept_across_operations_contents_and_results() {
    let b = manager_block(vec![
        obj(vec![(
            "contents",
            arr(vec![
                transaction("KT1a", vec![
                    event_result("tz1a", Some("alpha"), Json::Nat(1)),
                    obj(vec![("kind", s("transaction"))]),
                    event_result("tz1b", Some("beta"), Json::Nat(2)),
                ]),
                obj(vec![("kind", s("reveal"))]),
                transaction("KT1b", vec![event_result("tz1c", Some("gamma"), Json::Nat(3))]),
            ]),
        )]),
        obj(vec![("contents", arr(vec![transaction("KT1c", vec![event_result("tz1d", None, Json::Nat(4))])]))]),
    ]);
    let evs = extract_events(b, 9).unwrap();
    assert_eq!(evs.len(), 4);
    check(&evs[0], 9, "KT1a", "tz1a", "alpha");
    check(&evs[1], 9, "KT1a", "tz1b", "beta");
    check(&evs[2], 9, "KT1b", "tz1c", "gamma");
    check(&evs[3], 9, "KT1c", "tz1d", "default");
    for (i, e) in evs.iter().enumerate() {
        assert!(is_nat(&e.data, i as u64 + 1));
    }
}

#[test]
fn non_transaction_contents_are_skipped() {
    let b = manager_block(vec![obj(vec![(
        "contents",
        arr(vec![obj(vec![("kind", s("origination"))]), obj(vec![("kind", s("some_future_kind"))])]),
    )])]);
    assert_eq!(extract_events(b, 4).unwrap().len(), 0);
}

#[test]
fn operation_without_contents_has_no_events() {
    let b = manager_block(vec![obj(vec![])]);
    assert_eq!(extract_events(b, 4).unwrap().len(), 0);
}

#[test]
fn malformed_manager_batch_fails() {
    assert!(extract_events(block(vec![arr(vec![]), arr(vec![]), arr(vec![]), Json::Nat(1)]), 4).is_none());
    assert!(extract_events(manager_block(vec![Json::Nat(1)]), 4).is_none());
    assert!(extract_events(manager_block(vec![obj(vec![("contents", s("x"))])]), 4).is_none());
    let no_kind = obj(vec![("destination", s("KT1"))]);
    assert!(extract_events(manager_block(vec![obj(vec![("contents", arr(vec![no_kind]))])]), 4).is_none());
}

#[test]
fn transaction_without_destination_fails() {
    let t = obj(vec![("kind", s("transaction")), ("metadata", obj(vec![]))]);
    assert!(extract_events(manager_block(vec![obj(vec![("contents", arr(vec![t]))])]), 4).is_none());
}

#[test]
fn event_without_payload_fails() {
    let r = obj(vec![("kind", s("event")), ("type", Json::Null), ("source", s("tz1"))]);
    let b = manager_block(vec![obj(vec![("contents", arr(vec![transaction("KT1", vec![r])]))])]);
    assert!(extract_events(b, 4).is_none());
}

#[test]
fn transaction_without_results_has_no_events() {
    let t = obj(vec![("kind", s("transaction")), ("destination", s("KT1")), ("metadata", obj(vec![]))]);
    assert_eq!(extract_events(manager_block(vec![obj(vec![("contents", arr(vec![t]))])]), 4).unwrap().len(), 0);
}
