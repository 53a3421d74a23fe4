use forma_embedded_view_sdk::call::CallOutcome;
use forma_embedded_view_sdk::call::PendingResult;
use forma_embedded_view_sdk::call::complete_call;
use forma_embedded_view_sdk::call::complete_void_call;
use forma_embedded_view_sdk::call::prepare_call;
use forma_embedded_view_sdk::dynamic::DynamicValue;
use forma_embedded_view_sdk::error::SdkError;
use forma_embedded_view_sdk::types::IdResult;
use forma_embedded_view_sdk::types::RemoveRequest;

fn id_object(id: &str) -> DynamicValue {
    DynamicValue::Object(vec![("id".to_string(), DynamicValue::Text(id.to_string()))])
}

#[test]
fn first_settlement_wins() {
    let mut pending = PendingResult::new();
    assert!(!pending.is_settled());
    let first = pending.settle(CallOutcome::Fulfilled(id_object("one")));
    assert!(first);
    let second = pending.settle(CallOutcome::Rejected(DynamicValue::Text("late".to_string())));
    assert!(!second);
    match pending.take() {
        Some(CallOutcome::Fulfilled(v)) => assert_eq!(v, id_object("one")),
        other => panic!("expected the first settlement, got {:?}", other),
    }
}

#[test]
fn double_fulfilment_surfaces_only_the_first_value() {
    let mut pending = PendingResult::new();
    pending.settle(CallOutcome::Fulfilled(id_object("first")));
    pending.settle(CallOutcome::Fulfilled(id_object("second")));
    let outcome = pending.take().expect("settled");
    let result: Result<IdResult, SdkError> = complete_call(outcome);
    assert_eq!(result.unwrap(), IdResult { id: "first".to_string() });
}

#[test]
fn fulfilment_decodes_into_the_declared_type() {
    let outcome = CallOutcome::Fulfilled(id_object("abc"));
    let result: Result<IdResult, SdkError> = complete_call(outcome);
    assert_eq!(result.unwrap(), IdResult { id: "abc".to_string() });
}

#[test]
fn rejection_classifies_as_host_error_and_is_not_decoded() {
    // The rejection value happens to look like a valid response; it must
    // still come back as the host's value, untouched.
    let outcome = CallOutcome::Rejected(id_object("abc"));
    let result: Result<IdResult, SdkError> = complete_call(outcome);
    match result {
        Err(SdkError::Host(v)) => assert_eq!(v, id_object("abc")),
        other => panic!("expected a host error, got {:?}", other),
    }
}

#[test]
fn malformed_fulfilment_classifies_as_marshal_error() {
    let outcome = CallOutcome::Fulfilled(DynamicValue::Int(7));
    let result: Result<IdResult, SdkError> = complete_call(outcome);
    match result {
        Err(SdkError::Marshal(_)) => {}
        other => panic!("expected a marshal error, got {:?}", other),
    }
}

#[test]
fn void_calls_discard_the_fulfilment_value() {
    assert!(complete_void_call(CallOutcome::Fulfilled(DynamicValue::Int(1))).is_ok());
    match complete_void_call(CallOutcome::Rejected(DynamicValue::Null)) {
        Err(SdkError::Host(DynamicValue::Null)) => {}
        other => panic!("expected a host error, got {:?}", other),
    }
}

#[test]
fn errors_classify_and_describe_themselves() {
    let host: forma_embedded_view_sdk::SdkResult<IdResult> =
        Err(SdkError::from_rejection(DynamicValue::Text("network down".to_string())));
    let host_error = host.unwrap_err();
    assert!(host_error.is_host());
    assert_eq!(host_error.describe(), "JS error: network down");

    let opaque = SdkError::from_rejection(DynamicValue::Int(3));
    assert_eq!(opaque.describe(), "JS error: [opaque host value]");

    let marshal = SdkError::from_marshal(forma_embedded_view_sdk::error::MarshalError::new(
        "expected an object",
    ));
    assert!(!marshal.is_host());
    assert_eq!(marshal.describe(), "Serialization error: expected an object");
}

#[test]
fn optional_call_treats_null_and_undefined_as_absent() {
    let absent: Result<Option<IdResult>, SdkError> =
        forma_embedded_view_sdk::call::complete_optional_call(CallOutcome::Fulfilled(
            DynamicValue::Null,
        ));
    assert_eq!(absent.unwrap(), None);

    let absent: Result<Option<IdResult>, SdkError> =
        forma_embedded_view_sdk::call::complete_optional_call(CallOutcome::Fulfilled(
            DynamicValue::Undefined,
        ));
    assert_eq!(absent.unwrap(), None);

    let present: Result<Option<IdResult>, SdkError> =
        forma_embedded_view_sdk::call::complete_optional_call(CallOutcome::Fulfilled(id_object(
            "tok",
        )));
    assert_eq!(present.unwrap(), Some(IdResult { id: "tok".to_string() }));

    let malformed: Result<Option<IdResult>, SdkError> =
        forma_embedded_view_sdk::call::complete_optional_call(CallOutcome::Fulfilled(
            DynamicValue::Int(1),
        ));
    assert!(matches!(malformed, Err(SdkError::Marshal(_))));

    let rejected: Result<Option<IdResult>, SdkError> =
        forma_embedded_view_sdk::call::complete_optional_call(CallOutcome::Rejected(
            DynamicValue::Null,
        ));
    assert!(matches!(rejected, Err(SdkError::Host(DynamicValue::Null))));
}

#[test]
fn bare_boolean_and_string_responses_decode_strictly() {
    let b: Result<bool, SdkError> = complete_call(CallOutcome::Fulfilled(DynamicValue::Bool(
        true,
    )));
    assert_eq!(b.unwrap(), true);
    let not_b: Result<bool, SdkError> =
        complete_call(CallOutcome::Fulfilled(DynamicValue::Int(1)));
    assert!(matches!(not_b, Err(SdkError::Marshal(_))));

    let s: Result<String, SdkError> = complete_call(CallOutcome::Fulfilled(DynamicValue::Text(
        "urn:adsk:x".to_string(),
    )));
    assert_eq!(s.unwrap(), "urn:adsk:x");
    let not_s: Result<String, SdkError> =
        complete_call(CallOutcome::Fulfilled(DynamicValue::Null));
    assert!(matches!(not_s, Err(SdkError::Marshal(_))));
}

#[test]
fn prepare_call_encodes_the_request() {
    let encoded = prepare_call(&RemoveRequest { id: "m".to_string() }).expect("should encode");
    assert_eq!(encoded, id_object("m"));
}
