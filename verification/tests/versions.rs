use io_unity::assets::AssetsFile;
use io_unity::serialized_file::SerializedFile;
use io_unity::until::Endian;

fn blob(level: u8, flags: u8, type_off: u32, name_off: u32, size: i32, meta: i32) -> Vec<u8> {
    let mut b = Vec::new();
    b.extend_from_slice(&1u16.to_le_bytes());
    b.push(level);
    b.push(flags);
    b.extend_from_slice(&type_off.to_le_bytes());
    b.extend_from_slice(&name_off.to_le_bytes());
    b.extend_from_slice(&size.to_le_bytes());
    b.extend_from_slice(&0i32.to_le_bytes());
    b.extend_from_slice(&meta.to_le_bytes());
    b.extend_from_slice(&0u64.to_le_bytes());
    b
}

/// A one-node tree for an `int Base` object; offsets into
/// "int\0Base\0": int at 0, Base at 4.
fn int_tree() -> Vec<u8> {
    let sbuf = b"int\0Base\0".to_vec();
    let mut tree = Vec::new();
    tree.extend_from_slice(&1u32.to_le_bytes());
    tree.extend_from_slice(&(sbuf.len() as u32).to_le_bytes());
    tree.extend_from_slice(&blob(0, 0, 0, 4, 4, 0));
    tree.extend_from_slice(&sbuf);
    tree
}

#[test]
fn v10_file_parses_and_decodes() {
    let mut c = Vec::new();
    c.extend_from_slice(b"5.6.1f1\0"); // unity version
    c.extend_from_slice(&5u32.to_le_bytes()); // platform
    c.extend_from_slice(&1u32.to_le_bytes()); // type count
    c.extend_from_slice(&49i32.to_le_bytes()); // class id
    c.extend_from_slice(&int_tree());
    c.extend_from_slice(&0i32.to_le_bytes()); // big_id_enabled
    c.extend_from_slice(&1i32.to_le_bytes()); // object count
    c.extend_from_slice(&7i32.to_le_bytes()); // path id (narrow)
    c.extend_from_slice(&0u32.to_le_bytes()); // byte start
    c.extend_from_slice(&4u32.to_le_bytes()); // byte size
    c.extend_from_slice(&49i32.to_le_bytes()); // type id (class id here)
    c.extend_from_slice(&49u16.to_le_bytes()); // class id
    c.extend_from_slice(&0u16.to_le_bytes()); // is destroyed
    c.extend_from_slice(&0i32.to_le_bytes()); // externals count
    c.push(0); // user information
    let data_offset = 20 + c.len();
    let mut f = Vec::new();
    f.extend_from_slice(&(c.len() as u32).to_be_bytes());
    f.extend_from_slice(&((data_offset + 4) as u32).to_be_bytes());
    f.extend_from_slice(&10u32.to_be_bytes());
    f.extend_from_slice(&(data_offset as u32).to_be_bytes());
    f.push(0); // little endian
    f.extend_from_slice(&[0, 0, 0]);
    f.extend_from_slice(&c);
    f.extend_from_slice(&123i32.to_le_bytes()); // the object payload
    let sf = SerializedFile::read(f).expect("parse");
    assert_eq!(sf.get_serialized_file_version(), 10);
    assert!(sf.get_enable_type_tree());
    assert_eq!(sf.get_endianess(), Endian::Little);
    assert_eq!(sf.get_unity_version().as_slice(), &b"5.6.1f1"[..]);
    let metas = sf.get_objects_metadata();
    assert_eq!(metas.len(), 1);
    assert_eq!(metas[0].path_id, 7);
    assert_eq!(metas[0].class, 49);
    let obj = sf.get_tt_object_by_path_id(7).expect("decode").expect("object");
    assert_eq!(obj.get_int_by_path("/Base").unwrap(), 123);
}

#[test]
fn v22_file_parses_and_decodes() {
    let mut c = Vec::new();
    c.extend_from_slice(b"2022.1.0f1\0"); // unity version
    c.extend_from_slice(&19u32.to_le_bytes()); // platform
    c.push(1); // enable_type_tree
    c.extend_from_slice(&1u32.to_le_bytes()); // type count
    c.extend_from_slice(&114i32.to_le_bytes()); // class id (script: has script id)
    c.push(0); // stripped
    c.extend_from_slice(&0i16.to_le_bytes()); // script type index
    c.extend_from_slice(&[1; 16]); // script id
    c.extend_from_slice(&[2; 16]); // old type hash
    c.extend_from_slice(&int_tree());
    c.extend_from_slice(&1i32.to_le_bytes()); // object count
    while (20 + 28 + c.len()) % 4 != 0 {
        c.push(0); // align before the object entry (absolute position)
    }
    c.extend_from_slice(&9i64.to_le_bytes()); // path id
    c.extend_from_slice(&0u64.to_le_bytes()); // byte start (wide)
    c.extend_from_slice(&4u32.to_le_bytes()); // byte size
    c.extend_from_slice(&0i32.to_le_bytes()); // type id
    c.extend_from_slice(&0i32.to_le_bytes()); // script count
    c.extend_from_slice(&0i32.to_le_bytes()); // externals count
    c.extend_from_slice(&0i32.to_le_bytes()); // ref type count
    c.push(0); // user information
    let data_offset = 20 + 28 + c.len();
    let mut f = Vec::new();
    f.extend_from_slice(&(c.len() as u32).to_be_bytes());
    f.extend_from_slice(&0u32.to_be_bytes()); // legacy file size
    f.extend_from_slice(&22u32.to_be_bytes());
    f.extend_from_slice(&0u32.to_be_bytes()); // legacy data offset
    f.push(0); // little endian
    f.extend_from_slice(&[0, 0, 0]);
    f.extend_from_slice(&(c.len() as u32).to_be_bytes()); // wide metadata size
    f.extend_from_slice(&((data_offset + 4) as u64).to_be_bytes()); // wide file size
    f.extend_from_slice(&(data_offset as u64).to_be_bytes()); // wide data offset
    f.extend_from_slice(&0u64.to_be_bytes());
    f.extend_from_slice(&c);
    f.extend_from_slice(&(-5i32).to_le_bytes()); // the object payload
    let sf = SerializedFile::read(f).expect("parse");
    assert_eq!(sf.get_serialized_file_version(), 22);
    assert_eq!(sf.get_data_offset(), data_offset as u64);
    let obj = sf.get_tt_object_by_path_id(9).expect("decode").expect("object");
    assert_eq!(obj.class_id, 114);
    assert_eq!(obj.get_int_by_path("/Base").unwrap(), -5);
}

#[test]
fn assets_file_alternate_entry_point() {
    // The same wide-header layout, read through the alternate entry
    // point: header fields big-endian, body little-endian at byte 48.
    let mut c = Vec::new();
    c.extend_from_slice(b"2022.1.0f1\0");
    c.extend_from_slice(&19u32.to_le_bytes());
    c.push(1); // enable_type_tree
    c.extend_from_slice(&0u32.to_le_bytes()); // type count
    c.extend_from_slice(&0i32.to_le_bytes()); // object count
    c.extend_from_slice(&0i32.to_le_bytes()); // script count
    c.extend_from_slice(&0i32.to_le_bytes()); // externals count
    c.extend_from_slice(&0i32.to_le_bytes()); // ref type count
    c.push(0); // user information
    let mut f = Vec::new();
    f.extend_from_slice(&(c.len() as u32).to_be_bytes());
    f.extend_from_slice(&0u32.to_be_bytes());
    f.extend_from_slice(&22u32.to_be_bytes());
    f.extend_from_slice(&0u32.to_be_bytes());
    f.push(0);
    f.extend_from_slice(&[0, 0, 0]);
    f.extend_from_slice(&(c.len() as u32).to_be_bytes());
    f.extend_from_slice(&((48 + c.len()) as i64).to_be_bytes());
    f.extend_from_slice(&(48i64 + c.len() as i64).to_be_bytes());
    f.extend_from_slice(&[0u8; 8]);
    f.extend_from_slice(&c);
    let af = AssetsFile::read(&f).expect("parse");
    assert_eq!(af.header.version, 22);
    assert_eq!(af.header.endianness, 0);
    assert_eq!(af.content.unity_version.as_slice(), &b"2022.1.0f1"[..]);
    assert!(af.content.enable_type_tree);
    assert_eq!(af.content.objects.len(), 0);
}
