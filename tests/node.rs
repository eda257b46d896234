use tez_events::json::Json;
use tez_events::node::{block_level_events, head_level, FetchError, Malformed};

fn header(members: Vec<(&str, Json)>) -> Json {
    Json::Object(members.into_iter().map(|(k, v)| (k.to_string(), v)).collect())
}

#[test]
fn head_level_reads_level() {
    let h = header(vec![("protocol", Json::Str("P".to_string())), ("level", Json::Nat(123))]);
    assert_eq!(head_level(200, Some(&h)), Ok(123));
}

#[test]
fn head_level_errors() {
    let h = header(vec![("level", Json::Nat(1))]);
    assert_eq!(head_level(500, Some(&h)), Err(FetchError::UpstreamUnavailable(Some(500))));
    assert_eq!(head_level(200, None), Err(FetchError::MalformedResponse(Malformed::NotJson)));
    assert_eq!(
        head_level(200, Some(&Json::Array(vec![]))),
        Err(FetchError::MalformedResponse(Malformed::NotObject))
    );
    assert_eq!(
        head_level(200, Some(&header(vec![("hash", Json::Nat(1))]))),
        Err(FetchError::MalformedResponse(Malformed::MissingLevel))
    );
    assert_eq!(
        head_level(200, Some(&header(vec![("level", Json::Number("-1".to_string()))]))),
        Err(FetchError::MalformedResponse(Malformed::LevelNotIntegral))
    );
}

#[test]
fn block_level_events_errors() {
    assert_eq!(
        block_level_events(404, Some(Json::Null), 1).unwrap_err(),
        FetchError::UpstreamUnavailable(Some(404))
    );
    assert_eq!(block_level_events(200, None, 1).unwrap_err(), FetchError::DecodeFailure);
    let bad = header(vec![(
        "operations",
        Json::Array(vec![Json::Array(vec![]), Json::Array(vec![]), Json::Array(vec![]), Json::Null]),
    )]);
    assert_eq!(block_level_events(200, Some(bad), 1).unwrap_err(), FetchError::DecodeFailure);
    assert_eq!(block_level_events(200, Some(header(vec![])), 1).unwrap().len(), 0);
}
