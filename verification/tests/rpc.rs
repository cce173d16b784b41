use eska_cli::rpc::{
    counter, error_message, exceeds_depth, is_method, limit, parse_failure_code, Id, IdCandidate,
    INVALID_PARAMS, INVALID_REQUEST, MAX_SAFE_ID, PARSE_ERROR,
};

#[test]
fn validates_identifiers() {
    for value in [
        IdCandidate::Other,
        IdCandidate::Text(String::new()),
        IdCandidate::Text("я".to_owned()),
        IdCandidate::Other,
        IdCandidate::Other,
        IdCandidate::Unsigned(9_007_199_254_740_992_u64),
    ] {
        assert!(Id::parse(&value).is_none());
    }
    assert_ne!(
        Id::parse(&IdCandidate::Unsigned(1)),
        Id::parse(&IdCandidate::Text("1".to_owned()))
    );
}

#[test]
fn identifier_bounds() {
    assert_eq!(Id::parse(&IdCandidate::Unsigned(MAX_SAFE_ID)), Some(Id::Number(MAX_SAFE_ID)));
    let longest = "a".repeat(64);
    assert_eq!(Id::parse(&IdCandidate::Text(longest.clone())), Some(Id::Text(longest)));
    assert!(Id::parse(&IdCandidate::Text("a".repeat(65))).is_none());
}

#[test]
fn nesting_depth_is_bounded_outside_strings() {
    let deep = format!("{}0{}", "[".repeat(65), "]".repeat(65));
    assert!(exceeds_depth(deep.as_bytes()));
    let allowed = format!("{}0{}", "[".repeat(64), "]".repeat(64));
    assert!(!exceeds_depth(allowed.as_bytes()));
    let quoted = format!("\"{}\"", "[".repeat(100));
    assert!(!exceeds_depth(quoted.as_bytes()));
    assert!(!exceeds_depth(br#"{"ignored":[1,true,null,"{}"]}"#));
    assert!(!exceeds_depth(format!("{}{}", "]".repeat(10), "[".repeat(64)).as_bytes()));
    let escaped = format!("\"\\\"{}", "[".repeat(65));
    assert!(!exceeds_depth(escaped.as_bytes()));
}

#[test]
fn error_codes_and_messages() {
    assert_eq!(error_message(PARSE_ERROR), "Parse error");
    assert_eq!(error_message(INVALID_REQUEST), "Invalid Request");
    assert_eq!(error_message(-32601), "Method not found");
    assert_eq!(error_message(INVALID_PARAMS), "Invalid params");
    assert_eq!(error_message(-32000), "Internal error");
    assert_eq!(parse_failure_code("duplicate JSON key at line 1 column 14"), INVALID_REQUEST);
    assert_eq!(parse_failure_code("EOF while parsing an object"), PARSE_ERROR);
}

#[test]
fn counters_limits_and_methods() {
    assert_eq!(counter("0"), Ok(0));
    assert_eq!(counter("18446744073709551615"), Ok(u64::MAX));
    for value in ["", "-1", "+1", "1.0", "18446744073709551616", " 1"] {
        assert_eq!(counter(value).unwrap_err().code, INVALID_PARAMS);
    }
    assert_eq!(limit(None), Ok(50));
    assert_eq!(limit(Some(500)), Ok(500));
    assert!(limit(Some(0)).is_err());
    assert!(limit(Some(501)).is_err());
    assert!(is_method("metadata/indexErrors"));
    assert!(!is_method("metadata/unknown"));
}
