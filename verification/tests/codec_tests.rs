use approval_core::approval::{
    ApprovalRequest, ApprovalResolution, ApprovalSource, ApprovalStatus, Severity, Timeout,
};
use approval_core::codec::{
    deserialize, deserialize_resolution, deserialize_source, serialize, serialize_resolution,
    serialize_source, DecodeError,
};

fn fixed_request(status: ApprovalStatus) -> ApprovalRequest {
    ApprovalRequest {
        id: "01234567-89ab-cdef-0123-456789abcdef".to_string(),
        source: ApprovalSource::ClawSudo { policy_rule: Some("allow-apt".to_string()) },
        command: "apt install curl".to_string(),
        agent: "openclaw".to_string(),
        severity: Severity::Warning,
        context: "Package installation request".to_string(),
        created_at: 1_700_000_000_000_000_000,
        timeout: Timeout::from_secs(300),
        status,
    }
}

#[test]
fn test_serialize_request_exact_text() {
    let req = fixed_request(ApprovalStatus::Pending);
    let json = serialize(&req);
    let expected = "{\"id\":\"01234567-89ab-cdef-0123-456789abcdef\",\
\"source\":{\"ClawSudo\":{\"policy_rule\":\"allow-apt\"}},\
\"command\":\"apt install curl\",\
\"agent\":\"openclaw\",\
\"severity\":\"Warning\",\
\"context\":\"Package installation request\",\
\"created_at\":1700000000000000000,\
\"timeout\":300,\
\"status\":\"Pending\"}";
    assert_eq!(json, expected);
}

#[test]
fn test_request_round_trip_pending() {
    let req = fixed_request(ApprovalStatus::Pending);
    let back = deserialize(&serialize(&req)).expect("round trip");
    assert_eq!(back, req);
}

#[test]
fn test_request_round_trip_resolved() {
    let req = fixed_request(ApprovalStatus::Resolved(ApprovalResolution::Approved {
        by: "admin".to_string(),
        via: "slack".to_string(),
        message: Some("looks fine".to_string()),
        at: 1_700_000_000_500_000_000,
    }));
    let back = deserialize(&serialize(&req)).expect("round trip");
    assert_eq!(back, req);
}

#[test]
fn test_request_round_trip_drops_subseconds() {
    let mut req = fixed_request(ApprovalStatus::Pending);
    req.timeout = Timeout::from_millis(1500);
    let back = deserialize(&serialize(&req)).expect("round trip");
    // only the whole-second count survives
    assert_eq!(back.timeout, Timeout::from_secs(1));
    req.timeout = Timeout::from_secs(1);
    assert_eq!(back, req);
}

#[test]
fn test_source_round_trip_all_variants() {
    let variants = vec![
        ApprovalSource::ClawSudo { policy_rule: Some("allow-apt".to_string()) },
        ApprovalSource::ClawSudo { policy_rule: None },
        ApprovalSource::ResponseEngine {
            threat_id: "THR-001".to_string(),
            playbook: Some("isolate-host".to_string()),
        },
        ApprovalSource::ResponseEngine { threat_id: "THR-001".to_string(), playbook: None },
    ];
    for v in variants {
        let back = deserialize_source(&serialize_source(&v)).expect("round trip");
        assert_eq!(back, v);
    }
}

#[test]
fn test_resolution_round_trip_all_variants() {
    let variants = vec![
        ApprovalResolution::Approved {
            by: "admin".to_string(),
            via: "slack".to_string(),
            message: None,
            at: 77,
        },
        ApprovalResolution::Denied {
            by: "jr".to_string(),
            via: "tui".to_string(),
            message: Some("too risky".to_string()),
            at: -3,
        },
        ApprovalResolution::TimedOut { at: 0 },
    ];
    for v in variants {
        let back = deserialize_resolution(&serialize_resolution(&v)).expect("round trip");
        assert_eq!(back, v);
    }
}

#[test]
fn test_round_trip_with_escaped_characters() {
    let v = ApprovalSource::ResponseEngine {
        threat_id: "say \"hi\" \\ there".to_string(),
        playbook: Some("a\\b\"c".to_string()),
    };
    let text = serialize_source(&v);
    let back = deserialize_source(&text).expect("round trip");
    assert_eq!(back, v);
}

#[test]
fn test_serialize_source_exact_text() {
    let v = ApprovalSource::ClawSudo { policy_rule: None };
    assert_eq!(serialize_source(&v), "{\"ClawSudo\":{\"policy_rule\":null}}");
    let w = ApprovalSource::ResponseEngine { threat_id: "T\"1".to_string(), playbook: None };
    assert_eq!(
        serialize_source(&w),
        "{\"ResponseEngine\":{\"threat_id\":\"T\\\"1\",\"playbook\":null}}"
    );
}

#[test]
fn test_deserialize_rejects_malformed() {
    assert_eq!(deserialize_source("not json at all"), Err(DecodeError::UnknownTag));
    assert_eq!(
        deserialize_source("{\"ClawSudo\":{\"policy_rule\":\"unterminated"),
        Err(DecodeError::Malformed)
    );
    assert_eq!(deserialize("{\"id\":42}"), Err(DecodeError::Malformed));
    // trailing garbage is rejected too
    let good = serialize_source(&ApprovalSource::ClawSudo { policy_rule: None });
    let mut with_garbage = good.clone();
    with_garbage.push_str("x");
    assert_eq!(deserialize_source(&with_garbage), Err(DecodeError::Malformed));
}

#[test]
fn test_deserialize_rejects_unknown_tag() {
    assert_eq!(
        deserialize_resolution("{\"Revoked\":{\"at\":1}}"),
        Err(DecodeError::UnknownTag)
    );
}

#[test]
fn test_deserialize_rejects_out_of_range() {
    // an instant beyond the native timestamp range
    assert_eq!(
        deserialize_resolution("{\"TimedOut\":{\"at\":99999999999999999999}}"),
        Err(DecodeError::OutOfRange)
    );
}

#[test]
fn test_deserialize_rejects_resolution_before_creation() {
    let req = fixed_request(ApprovalStatus::Resolved(ApprovalResolution::TimedOut {
        at: 1_600_000_000_000_000_000,
    }));
    // the resolution predates created_at, so the text does not decode
    assert!(deserialize(&serialize(&req)).is_err());
}

#[test]
fn test_negative_timestamp_round_trip() {
    let mut req = fixed_request(ApprovalStatus::Pending);
    req.created_at = -5;
    let back = deserialize(&serialize(&req)).expect("round trip");
    assert_eq!(back, req);
}
