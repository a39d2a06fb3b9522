use io_unity::classes::p_ptr::{ObjectPointer, PPtrObject};
use io_unity::error::Error;
use io_unity::serialized_file::SerializedFile;
use io_unity::unity_asset_view::UnityAssetViewer;
use io_unity::until::{Endian, UnityVersion};

fn push_u32_be(v: &mut Vec<u8>, x: u32) {
    v.extend_from_slice(&x.to_be_bytes());
}

fn push_u32_le(v: &mut Vec<u8>, x: u32) {
    v.extend_from_slice(&x.to_le_bytes());
}

fn blob(level: u8, flags: u8, type_off: u32, name_off: u32, size: i32, meta: i32) -> Vec<u8> {
    let mut b = Vec::new();
    b.extend_from_slice(&1u16.to_le_bytes());
    b.push(level);
    b.push(flags);
    b.extend_from_slice(&type_off.to_le_bytes());
    b.extend_from_slice(&name_off.to_le_bytes());
    b.extend_from_slice(&size.to_le_bytes());
    b.extend_from_slice(&0i32.to_le_bytes());
    b.extend_from_slice(&meta.to_le_bytes());
    b.extend_from_slice(&0u64.to_le_bytes());
    b
}

/// A little-endian revision-19 file with one TextAsset-shaped object.
fn text_asset_file(externals: &[&str], payload: &[u8]) -> Vec<u8> {
    // string buffer offsets: TextAsset 0, Base 10, string 15, m_Name 22,
    // m_Script 29.
    let sbuf = b"TextAsset\0Base\0string\0m_Name\0m_Script\0".to_vec();
    let mut tree = Vec::new();
    let nodes = [
        blob(0, 0, 0, 10, -1, 0),       // TextAsset Base (the root structure)
        blob(1, 0, 15, 22, -1, 0x4000), // string m_Name, aligned after its data
        blob(1, 0, 15, 29, -1, 0x4000), // string m_Script, aligned after its data
    ];
    push_u32_le(&mut tree, nodes.len() as u32); // node count (i32)
    push_u32_le(&mut tree, sbuf.len() as u32);
    for n in &nodes {
        tree.extend_from_slice(n);
    }
    tree.extend_from_slice(&sbuf);
    // content
    let mut c = Vec::new();
    c.extend_from_slice(b"2019.4.0f1\0"); // unity_version
    push_u32_le(&mut c, 5); // target platform
    c.push(1); // enable_type_tree
    push_u32_le(&mut c, 1); // type count
    // SerializedType: class_id 49, stripped 0, script_type_index -1, hash 16 bytes, tree
    c.extend_from_slice(&49i32.to_le_bytes());
    c.push(0);
    c.extend_from_slice(&(-1i16).to_le_bytes());
    c.extend_from_slice(&[0u8; 16]);
    c.extend_from_slice(&tree);
    push_u32_le(&mut c, 1); // object count
    while (20 + c.len()) % 4 != 0 {
        c.push(0); // align before object entry (absolute position)
    }
    c.extend_from_slice(&1i64.to_le_bytes()); // path_id 1
    push_u32_le(&mut c, 0); // byte_start
    push_u32_le(&mut c, payload.len() as u32); // byte_size
    c.extend_from_slice(&0i32.to_le_bytes()); // type_id
    push_u32_le(&mut c, 0); // script count
    push_u32_le(&mut c, externals.len() as u32); // externals count
    for e in externals {
        c.push(0); // empty asset path
        c.extend_from_slice(&[0u8; 16]);
        c.extend_from_slice(&0i32.to_le_bytes());
        c.extend_from_slice(e.as_bytes());
        c.push(0);
    }
    c.push(0); // user information
    let data_offset = 20 + c.len();
    let mut f = Vec::new();
    push_u32_be(&mut f, c.len() as u32); // metadata size
    push_u32_be(&mut f, (data_offset + payload.len()) as u32); // file size
    push_u32_be(&mut f, 19); // version
    push_u32_be(&mut f, data_offset as u32); // data offset
    f.push(0); // little endian
    f.extend_from_slice(&[0, 0, 0]);
    f.extend_from_slice(&c);
    f.extend_from_slice(&payload);
    f
}

fn str_payload(fields: &[&str]) -> Vec<u8> {
    let mut p = Vec::new();
    for s in fields {
        push_u32_le(&mut p, s.len() as u32);
        p.extend_from_slice(s.as_bytes());
        while p.len() % 4 != 0 {
            p.push(0);
        }
    }
    p
}

#[test]
fn header_dispatch_unknown_version_is_format_error() {
    let mut f = Vec::new();
    push_u32_be(&mut f, 0);
    push_u32_be(&mut f, 0);
    push_u32_be(&mut f, 7);
    push_u32_be(&mut f, 0);
    f.extend_from_slice(&[0; 16]);
    assert!(matches!(SerializedFile::read(f), Err(Error::NoMatchingFormat)));
}

#[test]
fn header_too_short_is_eof() {
    assert!(matches!(SerializedFile::read(vec![1, 2, 3]), Err(Error::UnexpectedEof)));
}

#[test]
fn v19_text_asset_decodes_by_path() {
    // string fields are aligned after the data, so the align flag sits on
    // each string node's subtree; here strings themselves carry no align
    // flag, and the payload is packed with 4-byte padding per field.
    let payload = str_payload(&["clip", "hello"]);
    let f = text_asset_file(&[], &payload);
    let sf = SerializedFile::read(f).expect("parse");
    assert_eq!(sf.get_serialized_file_version(), 19);
    assert!(sf.get_enable_type_tree());
    assert_eq!(sf.get_endianess(), Endian::Little);
    let obj = sf.get_tt_object_by_path_id(1).expect("decode").expect("object");
    assert_eq!(obj.class_id, 49);
    assert_eq!(obj.get_string_by_path("/Base/m_Name").unwrap(), "clip");
    assert_eq!(obj.get_string_by_path("/Base/m_Script").unwrap(), "hello");
}

#[test]
fn pptr_path_id_zero_is_no_object_even_out_of_range() {
    let payload = str_payload(&["a", "b"]);
    let f = text_asset_file(&[], &payload);
    let sf = SerializedFile::read(f).expect("parse");
    let p = ObjectPointer::new(99, 0, 0);
    assert!(matches!(p.get_type_tree_object(&sf, None), Ok(None)));
}

#[test]
fn pptr_resolves_through_externals() {
    let payload = str_payload(&["name", "content"]);
    let a = text_asset_file(&["dir/OtherFile"], &payload);
    let b = text_asset_file(&[], &payload);
    let mut viewer = UnityAssetViewer::new();
    let id_a = viewer.add_serialized_file(a, b"A".to_vec()).unwrap();
    let _id_b = viewer.add_serialized_file(b, b"OtherFile".to_vec()).unwrap();
    let p = ObjectPointer::new(1, 1, id_a);
    let obj = p.get_type_tree_object_in_view(&viewer).expect("resolve").expect("object");
    assert_eq!(obj.get_string_by_path("/Base/m_Script").unwrap(), "content");
}

#[test]
fn pptr_out_of_range_file_id_is_distinct_error() {
    let payload = str_payload(&["x", "y"]);
    let f = text_asset_file(&[], &payload);
    let mut viewer = UnityAssetViewer::new();
    let id = viewer.add_serialized_file(f, b"A".to_vec()).unwrap();
    let p = ObjectPointer::new(2, 1000, id);
    assert!(matches!(p.get_type_tree_object_in_view(&viewer), Err(Error::FileIdOutOfRange)));
    assert_eq!(p.get_file_id(), 2);
    assert_eq!(p.get_path_id(), 1000);
}

#[test]
fn unity_version_tags() {
    let v = UnityVersion::new(vec![2021, 3], Some("a".to_string()));
    assert!(v.is_alpha());
    assert!(!v.is_patch());
    let p = UnityVersion::new(vec![5, 5], Some("p".to_string()));
    assert!(p.is_patch());
    let none = UnityVersion::new(vec![1], None);
    assert!(!none.is_alpha());
}

#[test]
fn endian_marker() {
    assert!(matches!(Endian::from_u8(0), Ok(Endian::Little)));
    assert!(matches!(Endian::from_u8(1), Ok(Endian::Big)));
    assert!(matches!(Endian::from_u8(2), Err(Error::InvalidValue)));
}
