use forma_embedded_view_sdk::call::CallOutcome;
use forma_embedded_view_sdk::dynamic::DynamicValue;
use forma_embedded_view_sdk::error::SdkError;
use forma_embedded_view_sdk::subscription::HandleAction;
use forma_embedded_view_sdk::subscription::SubscriptionHandle;
use forma_embedded_view_sdk::types::SelectionChangeEvent;

/// A test double host that records, in order, every revocation invocation
/// and callback release performed against it.
struct RecordingHost {
    log: Vec<String>,
}

impl RecordingHost {
    fn new() -> RecordingHost {
        RecordingHost { log: Vec::new() }
    }

    fn invoke_revocation(&mut self, id: u64) {
        self.log.push(format!("revoke:{id}"));
    }

    fn release_callback(&mut self, id: u64) {
        self.log.push(format!("release:{id}"));
    }

    fn perform(&mut self, actions: Vec<HandleAction>) {
        for action in actions {
            match action {
                HandleAction::InvokeRevocation(id) => self.invoke_revocation(id),
                HandleAction::ReleaseCallback(id) => self.release_callback(id),
            }
        }
    }
}

fn registration_result(revoker: u64) -> CallOutcome {
    CallOutcome::Fulfilled(DynamicValue::Object(vec![(
        "unsubscribe".to_string(),
        DynamicValue::Func(revoker),
    )]))
}

fn active_handle(callback: u64, revoker: u64) -> SubscriptionHandle {
    let mut handle = SubscriptionHandle::begin_registration(callback);
    handle
        .complete_registration(registration_result(revoker))
        .expect("registration should succeed");
    handle
}

/// Selection events arrive from the host as the bare array of paths.
fn selection_event(paths: &[&str]) -> DynamicValue {
    DynamicValue::Array(paths.iter().map(|p| DynamicValue::Text(p.to_string())).collect())
}

#[test]
fn registration_activates_the_handle() {
    let handle = active_handle(1, 100);
    assert!(handle.is_active());
}

#[test]
fn rejected_registration_reports_the_host_error() {
    let mut handle = SubscriptionHandle::begin_registration(1);
    let result = handle.complete_registration(CallOutcome::Rejected(DynamicValue::Text(
        "denied".to_string(),
    )));
    match result {
        Err(SdkError::Host(DynamicValue::Text(t))) => assert_eq!(t, "denied"),
        other => panic!("expected a host error, got {:?}", other),
    }
    assert!(!handle.is_active());
}

#[test]
fn malformed_registration_result_is_a_marshal_error() {
    let mut handle = SubscriptionHandle::begin_registration(1);
    let result = handle.complete_registration(CallOutcome::Fulfilled(DynamicValue::Object(
        vec![("unsubscribe".to_string(), DynamicValue::Text("not a function".to_string()))],
    )));
    match result {
        Err(SdkError::Marshal(_)) => {}
        other => panic!("expected a marshal error, got {:?}", other),
    }
    assert!(!handle.is_active());
}

#[test]
fn revoke_twice_succeeds_and_invokes_the_host_once() {
    let mut host = RecordingHost::new();
    let mut handle = active_handle(1, 100);
    if let Some(id) = handle.revoke() {
        host.invoke_revocation(id);
    }
    if let Some(id) = handle.revoke() {
        host.invoke_revocation(id);
    }
    assert_eq!(host.log, vec!["revoke:100".to_string()]);
    assert!(!handle.is_active());
}

#[test]
fn closing_a_live_handle_revokes_before_releasing() {
    let mut host = RecordingHost::new();
    let mut handle = active_handle(7, 42);
    let actions = handle.close();
    host.perform(actions);
    assert_eq!(host.log, vec!["revoke:42".to_string(), "release:7".to_string()]);
}

#[test]
fn closing_an_already_revoked_handle_only_releases() {
    let mut host = RecordingHost::new();
    let mut handle = active_handle(7, 42);
    if let Some(id) = handle.revoke() {
        host.invoke_revocation(id);
    }
    let actions = handle.close();
    host.perform(actions);
    assert_eq!(host.log, vec!["revoke:42".to_string(), "release:7".to_string()]);
}

#[test]
fn closing_twice_does_nothing_the_second_time() {
    let mut host = RecordingHost::new();
    let mut handle = active_handle(7, 42);
    host.perform(handle.close());
    host.perform(handle.close());
    assert_eq!(host.log, vec!["revoke:42".to_string(), "release:7".to_string()]);
}

#[test]
fn no_delivery_before_activation_or_after_revocation() {
    let handle = SubscriptionHandle::begin_registration(1);
    let delivered: Option<SelectionChangeEvent> = handle.deliver_event(&selection_event(&["a"]));
    assert!(delivered.is_none());

    let mut handle = active_handle(1, 2);
    handle.revoke();
    let delivered: Option<SelectionChangeEvent> = handle.deliver_event(&selection_event(&["a"]));
    assert!(delivered.is_none());
}

#[test]
fn one_malformed_event_does_not_kill_the_subscription() {
    let handle = active_handle(3, 30);
    let events = vec![
        selection_event(&["a"]),
        DynamicValue::Int(42),
        selection_event(&["b"]),
    ];
    let mut received: Vec<SelectionChangeEvent> = Vec::new();
    for event in &events {
        if let Some(decoded) = handle.deliver_event::<SelectionChangeEvent>(event) {
            received.push(decoded);
        }
    }
    assert_eq!(received.len(), 2);
    assert_eq!(received[0].paths, vec!["a".to_string()]);
    assert_eq!(received[1].paths, vec!["b".to_string()]);
    assert!(handle.is_active());
    // Still live: a later well-formed event is delivered normally.
    let later: Option<SelectionChangeEvent> = handle.deliver_event(&selection_event(&["c"]));
    assert_eq!(later.expect("still delivering").paths, vec!["c".to_string()]);
}
