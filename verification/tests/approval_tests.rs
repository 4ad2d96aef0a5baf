use approval_core::approval::{
    ApprovalError, ApprovalRequest, ApprovalResolution, ApprovalSource, ApprovalStatus, Severity,
    Timeout,
};

fn now_nanos() -> i64 {
    chrono::Utc::now().timestamp_nanos_opt().unwrap_or(i64::MAX)
}

#[test]
fn test_approval_request_creation() {
    let req = ApprovalRequest::new(
        ApprovalSource::ClawSudo { policy_rule: Some("allow-apt".to_string()) },
        "apt install curl".to_string(),
        "openclaw".to_string(),
        Severity::Warning,
        "Package installation request".to_string(),
        Timeout::from_secs(300),
    );

    assert!(!req.id.is_empty());
    // canonical id format: 8-4-4-4-12 hex chars
    assert_eq!(req.id.len(), 36);
    assert!(matches!(req.source, ApprovalSource::ClawSudo { .. }));
    assert_eq!(req.command, "apt install curl");
    assert_eq!(req.agent, "openclaw");
    assert_eq!(req.severity, Severity::Warning);
    // Timestamp should be very recent (within last 5 seconds)
    let age = now_nanos() - req.created_at;
    assert!(age < 5_000_000_000);
}

#[test]
fn test_approval_resolution_display() {
    let approved = ApprovalResolution::Approved {
        by: "admin".to_string(),
        via: "slack".to_string(),
        message: None,
        at: now_nanos(),
    };
    assert_eq!(approved.display(), "Approved by admin via slack");

    let denied = ApprovalResolution::Denied {
        by: "jr".to_string(),
        via: "tui".to_string(),
        message: Some("too risky".to_string()),
        at: now_nanos(),
    };
    assert_eq!(denied.display(), "Denied by jr via tui");

    let timed_out = ApprovalResolution::TimedOut { at: now_nanos() };
    assert_eq!(timed_out.display(), "Timed out");
}

#[test]
fn test_approval_source_serialization() {
    let source = ApprovalSource::ClawSudo { policy_rule: Some("allow-apt".to_string()) };
    let json = approval_core::codec::serialize_source(&source);
    let deserialized = approval_core::codec::deserialize_source(&json).expect("deserialize");

    match deserialized {
        ApprovalSource::ClawSudo { policy_rule } => {
            assert_eq!(policy_rule, Some("allow-apt".to_string()));
        }
        _ => panic!("expected ClawSudo variant"),
    }
}

#[test]
fn test_is_expired() {
    let req = ApprovalRequest::new(
        ApprovalSource::ResponseEngine { threat_id: "THR-001".to_string(), playbook: None },
        "kill -9 1234".to_string(),
        "openclaw".to_string(),
        Severity::Critical,
        "Suspicious process detected".to_string(),
        Timeout::from_millis(0),
    );

    assert!(req.is_expired());
}

fn sample_request(timeout: Timeout) -> ApprovalRequest {
    ApprovalRequest::new(
        ApprovalSource::ClawSudo { policy_rule: None },
        "rm -rf /tmp/scratch".to_string(),
        "openclaw".to_string(),
        Severity::Info,
        "cleanup".to_string(),
        timeout,
    )
}

#[test]
fn test_expiry_window() {
    let req = sample_request(Timeout::from_secs(300));
    // a positive window is not expired right after creation
    assert!(!req.is_expired());
    // exactly at the deadline it is still not expired
    assert!(!req.is_expired_at(req.created_at + 300_000_000_000));
    // one nanosecond past the deadline it is expired
    assert!(req.is_expired_at(req.created_at + 300_000_000_001));
    // a zero window expires as soon as any time passes
    let zero = sample_request(Timeout::from_secs(0));
    assert!(!zero.is_expired_at(zero.created_at));
    assert!(zero.is_expired_at(zero.created_at + 1));
}

#[test]
fn test_expiry_overflow_fails_safe() {
    // a timeout whose deadline cannot be represented counts as expired
    let req = sample_request(Timeout::from_secs(u64::MAX));
    assert!(req.is_expired());
}

#[test]
fn test_resolution_applied_exactly_once() {
    let mut req = sample_request(Timeout::from_secs(60));
    let first = ApprovalResolution::Approved {
        by: "admin".to_string(),
        via: "slack".to_string(),
        message: None,
        at: req.created_at + 1,
    };
    let second = ApprovalResolution::Denied {
        by: "jr".to_string(),
        via: "tui".to_string(),
        message: Some("changed my mind".to_string()),
        at: req.created_at + 2,
    };

    assert_eq!(req.resolve(first.clone()), Ok(()));
    assert_eq!(req.status, ApprovalStatus::Resolved(first.clone()));

    // the second attempt is rejected and reports the winning resolution
    let err = req.resolve(second).unwrap_err();
    assert_eq!(err, ApprovalError::AlreadyResolved(first.clone()));
    // and the original resolution is unchanged
    assert_eq!(req.status, ApprovalStatus::Resolved(first));
}

#[test]
fn test_timeout_resolution_on_pending() {
    let mut req = sample_request(Timeout::from_secs(0));
    let timed_out = ApprovalResolution::TimedOut { at: req.created_at + 5 };
    assert_eq!(req.resolve(timed_out.clone()), Ok(()));
    assert_eq!(req.status.display(), "Timed out");
    assert_eq!(req.status, ApprovalStatus::Resolved(timed_out));
}

#[test]
fn test_source_display_scenarios() {
    let with_rule = ApprovalSource::ClawSudo { policy_rule: Some("allow-apt".to_string()) };
    assert_eq!(with_rule.display(), "clawsudo (rule: allow-apt)");

    let without_rule = ApprovalSource::ClawSudo { policy_rule: None };
    assert_eq!(without_rule.display(), "clawsudo");

    let with_playbook = ApprovalSource::ResponseEngine {
        threat_id: "THR-9".to_string(),
        playbook: Some("isolate-host".to_string()),
    };
    assert_eq!(with_playbook.display(), "response-engine (threat: THR-9, playbook: isolate-host)");

    let without_playbook =
        ApprovalSource::ResponseEngine { threat_id: "THR-9".to_string(), playbook: None };
    assert_eq!(without_playbook.display(), "response-engine (threat: THR-9)");
}

#[test]
fn test_status_display() {
    assert_eq!(ApprovalStatus::Pending.display(), "Pending");
    let resolved = ApprovalStatus::Resolved(ApprovalResolution::Denied {
        by: "ops".to_string(),
        via: "api".to_string(),
        message: None,
        at: 7,
    });
    assert_eq!(resolved.display(), "Denied by ops via api");
}

#[test]
fn test_severity_ranking() {
    assert!(Severity::Critical.at_least(Severity::Warning));
    assert!(Severity::Warning.at_least(Severity::Warning));
    assert!(!Severity::Info.at_least(Severity::Warning));
}

#[test]
fn test_timeout_from_millis() {
    let t = Timeout::from_millis(1500);
    assert_eq!(t.secs, 1);
    assert_eq!(t.nanos, 500_000_000);
    let z = Timeout::from_millis(0);
    assert_eq!(z.secs, 0);
    assert_eq!(z.nanos, 0);
}
