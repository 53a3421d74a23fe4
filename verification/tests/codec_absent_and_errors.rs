use forma_embedded_view_sdk::codec::DynCodec;
use forma_embedded_view_sdk::codec::decode_optional;
use forma_embedded_view_sdk::dynamic::DynamicValue;
use forma_embedded_view_sdk::types::CameraCaptureRequest;
use forma_embedded_view_sdk::types::IdResult;
use forma_embedded_view_sdk::types::LibraryStatus;
use forma_embedded_view_sdk::types::RemoveRequest;
use forma_embedded_view_sdk::types::SelectionChangeEvent;

fn obj(fields: Vec<(&str, DynamicValue)>) -> DynamicValue {
    DynamicValue::Object(fields.into_iter().map(|(k, v)| (k.to_string(), v)).collect())
}

#[test]
fn optional_target_treats_null_as_absent() {
    let decoded: Option<IdResult> =
        decode_optional(&DynamicValue::Null).expect("null should decode as absent");
    assert!(decoded.is_none());
}

#[test]
fn optional_target_treats_undefined_as_absent() {
    let decoded: Option<IdResult> =
        decode_optional(&DynamicValue::Undefined).expect("undefined should decode as absent");
    assert!(decoded.is_none());
}

#[test]
fn optional_target_decodes_other_values_as_some() {
    let value = obj(vec![("id", DynamicValue::Text("x".to_string()))]);
    let decoded: Option<IdResult> = decode_optional(&value).expect("value should decode");
    assert_eq!(decoded, Some(IdResult { id: "x".to_string() }));
}

#[test]
fn optional_target_rejects_malformed_values() {
    let decoded: Result<Option<IdResult>, _> = decode_optional(&DynamicValue::Int(5));
    assert!(decoded.is_err());
}

#[test]
fn optional_field_accepts_null_undefined_and_absence() {
    for value in [
        obj(vec![]),
        obj(vec![("width", DynamicValue::Null)]),
        obj(vec![("width", DynamicValue::Undefined)]),
    ] {
        let decoded = CameraCaptureRequest::decode_dyn(&value).expect("should decode");
        assert_eq!(decoded.width, None);
        assert_eq!(decoded.height, None);
    }
}

#[test]
fn optional_field_rejects_wrong_type() {
    let value = obj(vec![("width", DynamicValue::Text("wide".to_string()))]);
    assert!(CameraCaptureRequest::decode_dyn(&value).is_err());
}

#[test]
fn extra_fields_are_ignored() {
    let value = obj(vec![
        ("unrelated", DynamicValue::Bool(true)),
        ("id", DynamicValue::Text("a".to_string())),
    ]);
    let decoded = RemoveRequest::decode_dyn(&value).expect("should decode");
    assert_eq!(decoded.id, "a");
}

#[test]
fn first_occurrence_of_a_duplicated_field_wins() {
    let value = obj(vec![
        ("id", DynamicValue::Text("first".to_string())),
        ("id", DynamicValue::Text("second".to_string())),
    ]);
    let decoded = RemoveRequest::decode_dyn(&value).expect("should decode");
    assert_eq!(decoded.id, "first");
}

#[test]
fn missing_required_field_is_an_error() {
    let value = obj(vec![("other", DynamicValue::Text("x".to_string()))]);
    let error = RemoveRequest::decode_dyn(&value).expect_err("should fail");
    assert!(error.message.contains("id"));
}

#[test]
fn type_mismatch_is_an_error_not_a_default() {
    assert!(RemoveRequest::decode_dyn(&DynamicValue::Text("id".to_string())).is_err());
    assert!(RemoveRequest::decode_dyn(&obj(vec![("id", DynamicValue::Int(3))])).is_err());
    assert!(SelectionChangeEvent::decode_dyn(&DynamicValue::Array(vec![
        DynamicValue::Text("ok".to_string()),
        DynamicValue::Int(1),
    ]))
    .is_err());
}

#[test]
fn selection_events_are_bare_path_arrays() {
    let event = DynamicValue::Array(vec![
        DynamicValue::Text("root/a".to_string()),
        DynamicValue::Text("root/b".to_string()),
    ]);
    let decoded = SelectionChangeEvent::decode_dyn(&event).expect("should decode");
    assert_eq!(decoded.paths, vec!["root/a".to_string(), "root/b".to_string()]);
    // An object-shaped value is not a selection event.
    assert!(SelectionChangeEvent::decode_dyn(&obj(vec![(
        "paths",
        DynamicValue::Array(vec![]),
    )]))
    .is_err());
}

#[test]
fn out_of_range_number_is_an_error() {
    let value = obj(vec![("width", DynamicValue::Int(u32::MAX as i64 + 1))]);
    assert!(CameraCaptureRequest::decode_dyn(&value).is_err());
    let negative = obj(vec![("width", DynamicValue::Int(-1))]);
    assert!(CameraCaptureRequest::decode_dyn(&negative).is_err());
}

#[test]
fn unknown_enum_tag_is_an_error() {
    assert!(LibraryStatus::decode_dyn(&DynamicValue::Text("queued".to_string())).is_err());
    assert!(LibraryStatus::decode_dyn(&DynamicValue::Int(1)).is_err());
}

#[test]
fn non_integral_number_does_not_decode_as_integer() {
    let value = obj(vec![("width", DynamicValue::FloatBits(f64::to_bits(1.5)))]);
    assert!(CameraCaptureRequest::decode_dyn(&value).is_err());
}
