use io_unity::error::Error;
use io_unity::serialized_file::SerializedFile;
use io_unity::type_tree::reader::{decode_object, Value};
use io_unity::type_tree::{TypeTreeNode, TypeTreeNodeBlob};
use io_unity::until::UnityVersion;

fn node(name: &str, ty: &str, level: u8, flags: u8, size: i32, meta: i32) -> TypeTreeNode {
    TypeTreeNode {
        name: name.to_string(),
        ty_name: ty.to_string(),
        node: TypeTreeNodeBlob {
            version: 1,
            level,
            type_flags: flags,
            type_str_offset: 0,
            name_str_offset: 0,
            byte_size: size,
            index: 0,
            meta_flag: meta,
            ref_type_hash: 0,
        },
    }
}

#[test]
fn aligned_array_consumes_expected_bytes() {
    // A bool element flagged AlignBytes inside an array of three: each
    // element takes one data byte and advances to the next multiple of
    // four, so the decoder must consume exactly 4 + 3 * 4 bytes.
    let nodes = vec![
        node("Base", "vector", 0, 0, -1, 0),
        node("Array", "Array", 1, 1, -1, 0),
        node("size", "int", 2, 0, 4, 0),
        node("data", "bool", 2, 0, 1, 0x4000),
    ];
    let mut payload = vec![3, 0, 0, 0];
    for b in [1u8, 0, 1] {
        payload.extend_from_slice(&[b, 0, 0, 0]);
    }
    let (root, end) = decode_object(&nodes, &payload, true).expect("decode");
    assert_eq!(end, 16);
    match &root.value {
        Value::Fields(fields) => match &fields[0].value {
            Value::Array(items) => {
                assert_eq!(items.len(), 3);
                assert!(matches!(items[0].value, Value::Bool(true)));
                assert!(matches!(items[1].value, Value::Bool(false)));
            },
            other => panic!("expected array, got {:?}", other),
        },
        other => panic!("expected fields, got {:?}", other),
    }
}

#[test]
fn pptr_shape_decodes_to_reference() {
    let nodes = vec![
        node("Base", "PPtr<GameObject>", 0, 0, -1, 0),
        node("m_FileID", "int", 1, 0, 4, 0),
        node("m_PathID", "SInt64", 1, 0, 8, 0),
    ];
    let mut payload = vec![1, 0, 0, 0];
    payload.extend_from_slice(&1000i64.to_le_bytes());
    let (root, end) = decode_object(&nodes, &payload, true).expect("decode");
    assert_eq!(end, 12);
    assert!(matches!(root.value, Value::Ref(1, 1000)));
}

#[test]
fn string_with_multibyte_utf8_round_trips() {
    let nodes = vec![node("Base", "string", 0, 0, -1, 0)];
    let text = "héllo";
    let mut payload = (text.len() as u32).to_le_bytes().to_vec();
    payload.extend_from_slice(text.as_bytes());
    let (root, _) = decode_object(&nodes, &payload, true).expect("decode");
    match &root.value {
        Value::Str(s) => assert_eq!(s, text),
        other => panic!("expected string, got {:?}", other),
    }
}

#[test]
fn invalid_utf8_string_is_an_error() {
    let nodes = vec![node("Base", "string", 0, 0, -1, 0)];
    let payload = vec![2, 0, 0, 0, 0xff, 0xfe];
    assert!(matches!(decode_object(&nodes, &payload, true), Err(Error::InvalidUtf8)));
}

#[test]
fn primitive_width_mismatch_is_an_error() {
    let nodes = vec![node("Base", "int", 0, 0, 2, 0)];
    let payload = vec![1, 0, 0, 0];
    assert!(decode_object(&nodes, &payload, true).is_err());
}

#[test]
fn truncated_primitive_is_an_error() {
    let nodes = vec![node("Base", "int", 0, 0, 4, 0)];
    let payload = vec![1, 0];
    assert!(matches!(decode_object(&nodes, &payload, true), Err(Error::UnexpectedEof)));
}

#[test]
fn big_endian_scalar_decodes() {
    let nodes = vec![node("Base", "unsigned int", 0, 0, 4, 0)];
    let payload = vec![0, 0, 1, 2];
    let (root, _) = decode_object(&nodes, &payload, false).expect("decode");
    assert!(matches!(root.value, Value::UInt32(258)));
}

#[test]
fn unity_version_from_str_splits_runs_and_tag() {
    let v = UnityVersion::from_str("2021.3.1f1").expect("parse");
    assert_eq!(v.version, vec![2021, 3, 1, 1]);
    assert_eq!(v.build_type.as_deref(), Some("f"));
    assert!(!v.is_alpha());
    let a = UnityVersion::from_str("2020.1.0a3").expect("parse");
    assert!(a.is_alpha());
    assert!(!a.is_patch());
    let p = UnityVersion::from_str("5.6.7p2").expect("parse");
    assert!(p.is_patch());
    let plain = UnityVersion::from_str("5.5").expect("parse");
    assert_eq!(plain.version, vec![5, 5]);
    assert!(plain.build_type.is_none());
}

#[test]
fn unity_version_from_str_rejects_broken_schemes() {
    assert!(matches!(UnityVersion::from_str(""), Err(Error::InvalidValue)));
    assert!(matches!(UnityVersion::from_str("1..2"), Err(Error::InvalidValue)));
    assert!(matches!(UnityVersion::from_str("abc"), Err(Error::InvalidValue)));
    assert!(matches!(UnityVersion::from_str("1.2."), Err(Error::InvalidValue)));
    assert!(matches!(UnityVersion::from_str("99999999999"), Err(Error::InvalidValue)));
}

#[test]
fn object_not_found_and_wrong_type_errors() {
    let nodes = vec![node("Base", "int", 0, 0, 4, 0)];
    let payload = vec![7, 0, 0, 0];
    let (root, _) = decode_object(&nodes, &payload, true).expect("decode");
    let obj = io_unity::type_tree::TypeTreeObject { class_id: 5, serialized_file_id: 0, data: root };
    assert_eq!(obj.get_int_by_path("/Base").unwrap(), 7);
    assert!(matches!(obj.get_string_by_path("/Base"), Err(Error::WrongType)));
    assert!(matches!(obj.get_int_by_path("/Nope"), Err(Error::PathNotFound)));
}

#[test]
fn unsupported_version_fails_before_body_parsing() {
    // A version-23 header followed by garbage: dispatch must refuse it
    // without touching the body.
    let mut f = Vec::new();
    f.extend_from_slice(&0u32.to_be_bytes());
    f.extend_from_slice(&0u32.to_be_bytes());
    f.extend_from_slice(&23u32.to_be_bytes());
    f.extend_from_slice(&0u32.to_be_bytes());
    f.extend_from_slice(&[9; 40]);
    assert!(matches!(SerializedFile::read(f), Err(Error::NoMatchingFormat)));
}

#[test]
fn unity_version_ordering() {
    let v = UnityVersion::from_str("2021.3.1f1").expect("parse");
    assert!(v.version_at_least(&vec![5, 5]));
    assert!(v.version_at_least(&vec![2021, 3]));
    assert!(v.version_at_least(&vec![2021, 3, 1, 1]));
    assert!(!v.version_at_least(&vec![2021, 4]));
    let old = UnityVersion::from_str("5.4.0").expect("parse");
    assert!(!old.version_at_least(&vec![5, 5]));
    assert!(old.version_at_least(&vec![5, 4]));
}
