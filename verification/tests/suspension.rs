use xerv_core::suspension::{SuspensionRequest, TimeoutAction};

#[test]
fn suspension_request_builder() {
    let req = SuspensionRequest::new("test-hook")
        .with_timeout(300, TimeoutAction::Approve)
        .with_metadata("{\"key\":\"value\"}");

    assert_eq!(req.hook_id, "test-hook");
    assert_eq!(req.timeout_secs, Some(300));
    assert_eq!(req.timeout_action, TimeoutAction::Approve);
    assert_eq!(req.metadata, "{\"key\":\"value\"}");
}

#[test]
fn suspension_request_defaults() {
    let req = SuspensionRequest::new("h");
    assert_eq!(req.timeout_secs, None);
    assert_eq!(req.timeout_action, TimeoutAction::Reject);
    assert_eq!(req.metadata, "null");
}

#[test]
fn timeout_action_output_ports() {
    assert_eq!(TimeoutAction::Approve.output_port(), "out");
    assert_eq!(TimeoutAction::Reject.output_port(), "rejected");
    assert_eq!(TimeoutAction::Escalate.output_port(), "escalated");
}

#[test]
fn timeout_action_default_is_reject() {
    assert_eq!(TimeoutAction::default(), TimeoutAction::Reject);
}

#[test]
fn metadata_must_be_json() {
    let ok = SuspensionRequest::new("h").try_with_metadata("[1, {\"a\": null}]").unwrap();
    assert_eq!(ok.metadata, "[1, {\"a\": null}]");
    assert!(SuspensionRequest::new("h").try_with_metadata("{not json").is_none());
    assert!(SuspensionRequest::new("h").try_with_metadata("").is_none());
}
