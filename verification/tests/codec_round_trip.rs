use forma_embedded_view_sdk::codec::DynCodec;
use forma_embedded_view_sdk::dynamic::DynamicValue;
use forma_embedded_view_sdk::types::AttributionAction;
use forma_embedded_view_sdk::types::AuthConfig;
use forma_embedded_view_sdk::types::CameraCaptureRequest;
use forma_embedded_view_sdk::types::ColorbarAddRequest;
use forma_embedded_view_sdk::types::ColorbarEntry;
use forma_embedded_view_sdk::types::FileUploadResult;
use forma_embedded_view_sdk::types::GeoDataType;
use forma_embedded_view_sdk::types::GeometryData;
use forma_embedded_view_sdk::types::GlbRenderRequest;
use forma_embedded_view_sdk::types::IdResult;
use forma_embedded_view_sdk::types::LibraryCreateItemRequest;
use forma_embedded_view_sdk::types::LibraryItemData;
use forma_embedded_view_sdk::types::LibraryStatus;
use forma_embedded_view_sdk::types::LibraryUpdateItemRequest;
use forma_embedded_view_sdk::types::Licensing;
use forma_embedded_view_sdk::types::MeshRequest;
use forma_embedded_view_sdk::types::ProposalGetRequest;
use forma_embedded_view_sdk::types::RemoveRequest;
use forma_embedded_view_sdk::types::SelectionChangeEvent;
use forma_embedded_view_sdk::types::SetElementsVisibilityRequest;
use forma_embedded_view_sdk::types::StorageListObjectsRequest;
use forma_embedded_view_sdk::types::UnitSystem;
use forma_embedded_view_sdk::types::UploadFileRequest;
use forma_embedded_view_sdk::types::Attribution;

fn round_trip<T: DynCodec + PartialEq + std::fmt::Debug + Clone>(v: T) {
    let encoded = v.encode_dyn().expect("encoding should succeed");
    let decoded = T::decode_dyn(&encoded).expect("decoding should succeed");
    assert_eq!(decoded, v);
}

#[test]
fn round_trip_simple_request() {
    round_trip(RemoveRequest { id: "mesh-17".to_string() });
    round_trip(IdResult { id: String::new() });
}

#[test]
fn round_trip_optional_fields_present_and_absent() {
    round_trip(CameraCaptureRequest { width: Some(640), height: Some(480) });
    round_trip(CameraCaptureRequest { width: None, height: None });
    round_trip(CameraCaptureRequest { width: Some(0), height: None });
    round_trip(StorageListObjectsRequest { prefix: None });
    round_trip(StorageListObjectsRequest { prefix: Some("drafts/".to_string()) });
    round_trip(ProposalGetRequest { id: "p1".to_string(), revision: Some("3".to_string()) });
    round_trip(ProposalGetRequest { id: "p1".to_string(), revision: None });
}

#[test]
fn absent_optional_field_is_omitted_not_null() {
    let encoded = CameraCaptureRequest { width: None, height: Some(2) }
        .encode_dyn()
        .expect("encoding should succeed");
    match &encoded {
        DynamicValue::Object(fields) => {
            assert!(fields.iter().all(|(k, _)| k != "width"));
            assert_eq!(fields.len(), 1);
        }
        other => panic!("expected an object, got {:?}", other),
    }
}

#[test]
fn round_trip_string_lists() {
    round_trip(SelectionChangeEvent { paths: vec![] });
    round_trip(SelectionChangeEvent {
        paths: vec!["root/a".to_string(), "root/b".to_string(), "root/c".to_string()],
    });
    round_trip(SetElementsVisibilityRequest {
        paths: vec!["x".to_string(), "y".to_string()],
        visible: false,
    });
    round_trip(AuthConfig {
        client_id: "client".to_string(),
        callback_url: "https://example.invalid/cb".to_string(),
        scopes: vec!["data:read".to_string(), "data:write".to_string()],
    });
}

#[test]
fn round_trip_enums() {
    round_trip(AttributionAction::Display);
    round_trip(AttributionAction::Transfer);
    round_trip(LibraryStatus::Success);
    round_trip(LibraryStatus::Failed);
    round_trip(LibraryStatus::Pending);
    round_trip(UnitSystem::Metric);
    round_trip(UnitSystem::Imperial);
    round_trip(GeoDataType::Buildings);
    round_trip(GeoDataType::Roads);
    round_trip(GeoDataType::PropertyBoundaries);
}

#[test]
fn round_trip_nested_shapes() {
    round_trip(ColorbarAddRequest {
        entries: vec![
            ColorbarEntry { color: "#ff0000".to_string(), label: "hot".to_string() },
            ColorbarEntry { color: "#0000ff".to_string(), label: "cold".to_string() },
        ],
        title: Some("temperature".to_string()),
    });
    round_trip(ColorbarAddRequest { entries: vec![], title: None });
    round_trip(Licensing {
        attributions: vec![Attribution {
            action: AttributionAction::Display,
            content: "data by example".to_string(),
            url: "https://example.invalid".to_string(),
        }],
        exportable: Some(true),
        license_url: "https://example.invalid/license".to_string(),
        provider_description_url: "https://example.invalid/provider".to_string(),
    });
}

#[test]
fn round_trip_flattened_library_items() {
    let data = LibraryItemData {
        name: "chair".to_string(),
        status: LibraryStatus::Pending,
        urn: Some("urn:adsk:1".to_string()),
    };
    round_trip(data.clone());
    round_trip(LibraryCreateItemRequest { data: data.clone() });
    round_trip(LibraryUpdateItemRequest { id: "item-9".to_string(), data });
}

#[test]
fn flattened_create_request_encodes_item_fields_at_top_level() {
    let request = LibraryCreateItemRequest {
        data: LibraryItemData {
            name: "tree".to_string(),
            status: LibraryStatus::Success,
            urn: None,
        },
    };
    let encoded = request.encode_dyn().expect("encoding should succeed");
    match &encoded {
        DynamicValue::Object(fields) => {
            assert!(fields.iter().any(|(k, _)| k == "name"));
            assert!(fields.iter().any(|(k, _)| k == "status"));
            assert!(fields.iter().all(|(k, _)| k != "data"));
        }
        other => panic!("expected an object, got {:?}", other),
    }
}

#[test]
fn round_trip_binary_payloads_byte_identical() {
    let bytes: Vec<u8> = (0..=255u16).map(|b| b as u8).collect();
    let upload = UploadFileRequest { data: bytes.clone(), name: "model.glb".to_string() };
    let encoded = upload.encode_dyn().expect("encoding should succeed");
    let decoded = UploadFileRequest::decode_dyn(&encoded).expect("decoding should succeed");
    assert_eq!(decoded.data, bytes);
    assert_eq!(decoded, upload);

    round_trip(GlbRenderRequest {
        id: "glb-1".to_string(),
        glb: vec![0x67, 0x6c, 0x54, 0x46, 0x00, 0xff],
        transform: Some((0..16).map(|i| f64::to_bits(i as f64)).collect()),
    });
}

#[test]
fn round_trip_mesh_with_float_bits() {
    let positions: Vec<f32> = vec![0.0, 1.5, -2.25, 1.0e-7, 3.4e38];
    let request = MeshRequest {
        id: "mesh-1".to_string(),
        geometry_data: GeometryData {
            position: positions.iter().map(|f| f.to_bits()).collect(),
            color: Some(vec![1, 2, 3, 255]),
        },
        transform: None,
    };
    let encoded = request.encode_dyn().expect("encoding should succeed");
    let decoded = MeshRequest::decode_dyn(&encoded).expect("decoding should succeed");
    let recovered: Vec<f32> =
        decoded.geometry_data.position.iter().map(|b| f32::from_bits(*b)).collect();
    assert_eq!(recovered, positions);
    assert_eq!(decoded, request);
}

#[test]
fn source_buffer_can_change_after_encoding() {
    let mut bytes = vec![9u8, 8, 7];
    let upload = UploadFileRequest { data: bytes.clone(), name: "f".to_string() };
    let encoded = upload.encode_dyn().expect("encoding should succeed");
    bytes[0] = 0;
    let decoded = UploadFileRequest::decode_dyn(&encoded).expect("decoding should succeed");
    assert_eq!(decoded.data, vec![9u8, 8, 7]);
}

#[test]
fn round_trip_two_field_result() {
    round_trip(FileUploadResult { file_id: "f-1".to_string(), blob_id: "b-1".to_string() });
}

#[test]
fn free_form_events_carry_any_value_through_unchanged() {
    let value = DynamicValue::Object(vec![
        ("state".to_string(), DynamicValue::Text("docked".to_string())),
        (
            "sizes".to_string(),
            DynamicValue::Array(vec![DynamicValue::Int(3), DynamicValue::Null]),
        ),
        ("scale".to_string(), DynamicValue::FloatBits(f64::to_bits(0.5))),
    ]);
    let event = forma_embedded_view_sdk::types::JsonEvent {
        value: DynamicValue::Array(vec![value, DynamicValue::Undefined]),
    };
    let encoded = event.encode_dyn().expect("encoding should succeed");
    assert_eq!(encoded, event.value);
    let decoded =
        forma_embedded_view_sdk::types::JsonEvent::decode_dyn(&encoded).expect("should decode");
    assert_eq!(decoded, event);
}

#[test]
fn transform_must_hold_sixteen_numbers() {
    let short = GlbRenderRequest {
        id: "glb-2".to_string(),
        glb: vec![1, 2, 3],
        transform: Some(vec![f64::to_bits(1.0); 3]),
    };
    assert!(short.encode_dyn().is_err());

    let full = GlbRenderRequest {
        id: "glb-2".to_string(),
        glb: vec![1, 2, 3],
        transform: Some((0..16).map(|i| f64::to_bits(i as f64)).collect()),
    };
    let encoded = full.encode_dyn().expect("a full matrix encodes");
    assert_eq!(GlbRenderRequest::decode_dyn(&encoded).expect("should decode"), full);

    // A wire value whose transform is not a 4x4 matrix does not decode.
    let wire = DynamicValue::Object(vec![
        ("id".to_string(), DynamicValue::Text("glb-2".to_string())),
        ("glb".to_string(), DynamicValue::Bytes(vec![1, 2, 3])),
        (
            "transform".to_string(),
            DynamicValue::Array(
                (0..3).map(|_| DynamicValue::FloatBits(f64::to_bits(1.0))).collect(),
            ),
        ),
    ]);
    assert!(GlbRenderRequest::decode_dyn(&wire).is_err());

    let mesh = MeshRequest {
        id: "m".to_string(),
        geometry_data: GeometryData { position: vec![], color: None },
        transform: Some(vec![0u64; 15]),
    };
    assert!(mesh.encode_dyn().is_err());
}
