//! The serialized-file format adapters: one parser per supported on-disk
//! format revision, all converging on one facade that exposes the object
//! index, the schema table, the externals list and the declared engine
//! version and platform.

pub mod version10;
pub mod version19;
pub mod version22;

use vstd::prelude::*;
use crate::error::Error;
use crate::raw;
use crate::type_tree::{TypeTree, TypeTreeV, TypeTreeNode, TypeTreeObjectBinReadClassArgs, TypeTreeObject, resolve_type_tree};
use crate::type_tree::reader::{decode_object, spec_decode_object};
use crate::type_tree::spec_resolved_nodes;
use crate::until::Endian;

verus! {

/// The common header every revision starts with, stored big-endian.
#[derive(Debug, Clone, Copy, PartialEq, Eq, Structural)]
pub struct SerializedFileCommonHeader {
    pub metadata_size: u32,
    pub file_size: u32,
    pub version: u32,
    pub data_offset: u32,
}

/// The declared target platform, kept as its raw numeric tag.
#[derive(Debug, Clone, Copy, PartialEq, Eq, Structural)]
pub struct BuildTarget(pub u32);

/// One entry of the object index, normalized across revisions.
#[derive(Debug, Clone, Copy, PartialEq, Eq, Structural)]
pub struct Object {
    pub path_id: i64,
    pub byte_start: u64,
    pub byte_size: u32,
    pub class: i32,
    pub type_id: usize,
}

impl DeepView for Object {
    type V = Object;

    open spec fn deep_view(&self) -> Object {
        *self
    }
}

/// One entry of the externals list: a file this file may reference.
#[derive(Debug, Clone)]
pub struct FileIdentifier {
    pub asset_path: Vec<u8>,
    pub guid: Vec<u8>,
    pub file_type: i32,
    pub path: Vec<u8>,
}

/// Spec-level image of a [`FileIdentifier`].
pub ghost struct FileIdentifierV {
    pub asset_path: Seq<u8>,
    pub guid: Seq<u8>,
    pub file_type: i32,
    pub path: Seq<u8>,
}

impl View for FileIdentifier {
    type V = FileIdentifierV;

    open spec fn view(&self) -> FileIdentifierV {
        FileIdentifierV {
            asset_path: self.asset_path@,
            guid: self.guid@,
            file_type: self.file_type,
            path: self.path@,
        }
    }
}

impl DeepView for FileIdentifier {
    type V = FileIdentifierV;

    open spec fn deep_view(&self) -> FileIdentifierV {
        self.view()
    }
}

/// One entry of the script-type table.
#[derive(Debug, Clone, Copy, PartialEq, Eq, Structural)]
pub struct ScriptType {
    pub local_serialized_file_index: i32,
    pub local_identifier_in_file: i64,
}

impl DeepView for ScriptType {
    type V = ScriptType;

    open spec fn deep_view(&self) -> ScriptType {
        *self
    }
}

/// The common header stored at the start of `d`.
pub open spec fn spec_common_header(d: Seq<u8>) -> SerializedFileCommonHeader {
    SerializedFileCommonHeader {
        metadata_size: raw::spec_u32_at(d, 0, false),
        file_size: raw::spec_u32_at(d, 4, false),
        version: raw::spec_u32_at(d, 8, false),
        data_offset: raw::spec_u32_at(d, 12, false),
    }
}

/// Reads the common header; the file must hold at least its 16 bytes.
pub fn read_common_header(d: &Vec<u8>) -> (r: Result<SerializedFileCommonHeader, Error>)
    ensures
        d@.len() >= 16 ==> r == Result::<SerializedFileCommonHeader, Error>::Ok(
            spec_common_header(d@),
        ),
        d@.len() < 16 ==> r == Result::<SerializedFileCommonHeader, Error>::Err(
            Error::UnexpectedEof,
        ),
{
    if d.len() < 16 {
        return Err(Error::UnexpectedEof);
    }
    let (metadata_size, _) = match raw::read_u32(d, 0, false) {
        Ok(v) => v,
        Err(e) => { return Err(e) },
    };
    let (file_size, _) = match raw::read_u32(d, 4, false) {
        Ok(v) => v,
        Err(e) => { return Err(e) },
    };
    let (version, _) = match raw::read_u32(d, 8, false) {
        Ok(v) => v,
        Err(e) => { return Err(e) },
    };
    let (data_offset, _) = match raw::read_u32(d, 12, false) {
        Ok(v) => v,
        Err(e) => { return Err(e) },
    };
    Ok(SerializedFileCommonHeader { metadata_size, file_size, version, data_offset })
}

/// The externals entry stored at `p`: a zero-terminated asset path, a
/// 16-byte guid, a 32-bit type and a zero-terminated path.
pub open spec fn spec_fid_at(d: Seq<u8>, p: int, little: bool) -> Option<(FileIdentifierV, int)> {
    let z0 = raw::spec_zero_at(d, p);
    if p < 0 || z0 >= d.len() {
        None
    } else {
        let p1 = z0 + 1;
        if !raw::spec_has(d, p1, 20) {
            None
        } else {
            let z1 = raw::spec_zero_at(d, p1 + 20);
            if z1 >= d.len() {
                None
            } else {
                Some(
                    (
                        FileIdentifierV {
                            asset_path: d.subrange(p, z0),
                            guid: d.subrange(p1, p1 + 16),
                            file_type: raw::spec_i32_at(d, p1 + 16, little),
                            path: d.subrange(p1 + 20, z1),
                        },
                        z1 + 1,
                    ),
                )
            }
        }
    }
}

/// Reads one externals entry.
pub fn read_fid(d: &Vec<u8>, p: usize, little: bool) -> (r: Result<(FileIdentifier, usize), Error>)
    requires
        p <= d@.len(),
    ensures
        match spec_fid_at(d@, p as int, little) {
            Some(v) => r matches Ok(x) && x.0@ == v.0 && x.1 == v.1 && x.1 <= d@.len(),
            None => r.is_err(),
        },
{
    let (asset_path, p1) = match raw::read_nullstr(d, p) {
        Ok(v) => v,
        Err(e) => { return Err(e) },
    };
    proof {
        raw::lemma_zero_at_bounds(d@, p as int);
    }
    let (guid, p2) = match raw::read_bytes(d, p1, 16) {
        Ok(v) => v,
        Err(e) => { return Err(e) },
    };
    let (file_type, p3) = match raw::read_i32(d, p2, little) {
        Ok(v) => v,
        Err(e) => { return Err(e) },
    };
    let (path, p4) = match raw::read_nullstr(d, p3) {
        Ok(v) => v,
        Err(e) => { return Err(e) },
    };
    proof {
        raw::lemma_zero_at_bounds(d@, p3 as int);
    }
    Ok((FileIdentifier { asset_path, guid, file_type, path }, p4))
}

/// The `n` externals entries stored from `p` on.
pub open spec fn spec_fids_at(d: Seq<u8>, p: int, n: int, little: bool) -> Option<
    (Seq<FileIdentifierV>, int),
>
    decreases n,
    when 0 <= n
{
    if n == 0 {
        Some((Seq::empty(), p))
    } else {
        match spec_fid_at(d, p, little) {
            Option::None => Option::None,
            Option::Some((v, q)) => {
                match spec_fids_at(d, q, n - 1, little) {
                    Option::None => Option::None,
                    Option::Some((rest, q2)) => Option::Some((seq![v] + rest, q2)),
                }
            },
        }
    }
}

/// Reads `n` externals entries.
pub fn read_fids(d: &Vec<u8>, p: usize, n: u32, little: bool) -> (r: Result<
    (Vec<FileIdentifier>, usize),
    Error,
>)
    requires
        p <= d@.len(),
    ensures
        match spec_fids_at(d@, p as int, n as int, little) {
            Some(v) => r matches Ok(x) && x.0.deep_view() == v.0 && x.1 == v.1 && x.1 <= d@.len(),
            None => r.is_err(),
        },
    decreases n,
{
    if n == 0 {
        let out: Vec<FileIdentifier> = Vec::new();
        proof {
            assert(out.deep_view() =~= Seq::<FileIdentifierV>::empty());
        }
        return Ok((out, p));
    }
    let (v, q) = match read_fid(d, p, little) {
        Ok(x) => x,
        Err(e) => { return Err(e) },
    };
    let (rest, q2) = match read_fids(d, q, n - 1, little) {
        Ok(x) => x,
        Err(e) => { return Err(e) },
    };
    let mut out: Vec<FileIdentifier> = Vec::new();
    out.push(v);
    let mut rest = rest;
    out.append(&mut rest);
    proof {
        let sv = spec_fids_at(d@, p as int, n as int, little).unwrap();
        assert(out.deep_view() =~= sv.0);
    }
    Ok((out, q2))
}

/// The script-type entry stored at `p`: a 32-bit file index, then the
/// 64-bit object identifier after alignment to four bytes.
pub open spec fn spec_script_at(d: Seq<u8>, p: int, little: bool) -> Option<(ScriptType, int)> {
    if !raw::spec_has(d, p, 4) {
        None
    } else {
        let a = raw::spec_align4(p + 4);
        if !raw::spec_has(d, a, 8) {
            None
        } else {
            Some(
                (
                    ScriptType {
                        local_serialized_file_index: raw::spec_i32_at(d, p, little),
                        local_identifier_in_file: raw::spec_i64_at(d, a, little),
                    },
                    a + 8,
                ),
            )
        }
    }
}

/// The `n` script-type entries stored from `p` on.
pub open spec fn spec_scripts_at(d: Seq<u8>, p: int, n: int, little: bool) -> Option<
    (Seq<ScriptType>, int),
>
    decreases n,
    when 0 <= n
{
    if n == 0 {
        Some((Seq::empty(), p))
    } else {
        match spec_script_at(d, p, little) {
            Option::None => Option::None,
            Option::Some((v, q)) => {
                match spec_scripts_at(d, q, n - 1, little) {
                    Option::None => Option::None,
                    Option::Some((rest, q2)) => Option::Some((seq![v] + rest, q2)),
                }
            },
        }
    }
}

/// Reads `n` script-type entries.
pub fn read_scripts(d: &Vec<u8>, p: usize, n: u32, little: bool) -> (r: Result<
    (Vec<ScriptType>, usize),
    Error,
>)
    requires
        p <= d@.len(),
    ensures
        match spec_scripts_at(d@, p as int, n as int, little) {
            Some(v) => r matches Ok(x) && x.0.deep_view() == v.0 && x.1 == v.1 && x.1 <= d@.len(),
            None => r.is_err(),
        },
    decreases n,
{
    if n == 0 {
        let out: Vec<ScriptType> = Vec::new();
        proof {
            assert(out.deep_view() =~= Seq::<ScriptType>::empty());
        }
        return Ok((out, p));
    }
    let dlen: usize = d.len();
    let (idx, p1) = match raw::read_i32(d, p, little) {
        Ok(x) => x,
        Err(e) => { return Err(e) },
    };
    let a = match raw::align4(p1) {
        Ok(x) => x,
        Err(e) => { return Err(e) },
    };
    if a > dlen {
        return Err(Error::UnexpectedEof);
    }
    let (ident, q) = match raw::read_i64(d, a, little) {
        Ok(x) => x,
        Err(e) => { return Err(e) },
    };
    let v = ScriptType { local_serialized_file_index: idx, local_identifier_in_file: ident };
    let (rest, q2) = match read_scripts(d, q, n - 1, little) {
        Ok(x) => x,
        Err(e) => { return Err(e) },
    };
    let mut out: Vec<ScriptType> = Vec::new();
    out.push(v);
    let mut rest = rest;
    out.append(&mut rest);
    proof {
        let sv = spec_scripts_at(d@, p as int, n as int, little).unwrap();
        assert(out.deep_view() =~= sv.0);
    }
    Ok((out, q2))
}


/// A parsed serialized file of any supported revision.
#[derive(Debug, Clone)]
pub enum FileContent {
    V10(version10::SerializedFile),
    V19(version19::SerializedFile),
    V22(version22::SerializedFile),
}

/// Spec-level image of [`FileContent`].
pub ghost enum FileContentV {
    V10(version10::SerializedFileV),
    V19(version19::SerializedFileV),
    V22(version22::SerializedFileV),
}

impl View for FileContent {
    type V = FileContentV;

    open spec fn view(&self) -> FileContentV {
        match self {
            FileContent::V10(f) => FileContentV::V10(f@),
            FileContent::V19(f) => FileContentV::V19(f@),
            FileContent::V22(f) => FileContentV::V22(f@),
        }
    }
}

/// The declared format version of the adapter behind the facade.
pub open spec fn spec_version(c: FileContentV) -> u32 {
    match c {
        FileContentV::V10(f) => f.header.version,
        FileContentV::V19(f) => f.header.version,
        FileContentV::V22(f) => f.header.version,
    }
}

/// The byte order of the content.
pub open spec fn spec_endian(c: FileContentV) -> Endian {
    match c {
        FileContentV::V10(f) => f.endianess,
        FileContentV::V19(f) => f.endianess,
        FileContentV::V22(f) => f.endianess,
    }
}

/// The offset where object payload bytes begin.
pub open spec fn spec_data_offset(c: FileContentV) -> u64 {
    match c {
        FileContentV::V10(f) => f.header.data_offset as u64,
        FileContentV::V19(f) => f.header.data_offset as u64,
        FileContentV::V22(f) => f.header2.data_offset,
    }
}

/// Whether the file carries embedded type trees (always, before the
/// explicit flag existed).
pub open spec fn spec_enable_type_tree(c: FileContentV) -> bool {
    match c {
        FileContentV::V10(_) => true,
        FileContentV::V19(f) => f.content.enable_type_tree,
        FileContentV::V22(f) => f.content.enable_type_tree,
    }
}

/// The declared engine version bytes.
pub open spec fn spec_unity_version(c: FileContentV) -> Seq<u8> {
    match c {
        FileContentV::V10(f) => f.content.unity_version,
        FileContentV::V19(f) => f.content.unity_version,
        FileContentV::V22(f) => f.content.unity_version,
    }
}

/// The declared target platform.
pub open spec fn spec_target_platform(c: FileContentV) -> BuildTarget {
    match c {
        FileContentV::V10(f) => f.content.target_platform,
        FileContentV::V19(f) => f.content.target_platform,
        FileContentV::V22(f) => f.content.target_platform,
    }
}

/// The externals list.
pub open spec fn spec_externals(c: FileContentV) -> Seq<FileIdentifierV> {
    match c {
        FileContentV::V10(f) => f.content.externals,
        FileContentV::V19(f) => f.content.externals,
        FileContentV::V22(f) => f.content.externals,
    }
}

/// The object index normalized across revisions: class ids are stored on
/// the object before revision 19 and found through the type table from it
/// on (zero when the type index is out of range, as nothing better is
/// known).
pub open spec fn spec_objects_metadata(c: FileContentV) -> Seq<Object> {
    match c {
        FileContentV::V10(f) => Seq::new(
            f.content.objects.len(),
            |i: int|
                Object {
                    path_id: f.content.objects[i].path_id,
                    byte_start: f.content.objects[i].byte_start as u64,
                    byte_size: f.content.objects[i].byte_size,
                    class: f.content.objects[i].class_id as i32,
                    type_id: f.content.objects[i].type_id as usize,
                },
        ),
        FileContentV::V19(f) => Seq::new(
            f.content.objects.len(),
            |i: int|
                Object {
                    path_id: f.content.objects[i].path_id,
                    byte_start: f.content.objects[i].byte_start as u64,
                    byte_size: f.content.objects[i].byte_size,
                    class: if 0 <= f.content.objects[i].type_id < f.content.types.len() {
                        f.content.types[f.content.objects[i].type_id as int].class_id
                    } else {
                        0
                    },
                    type_id: f.content.objects[i].type_id as usize,
                },
        ),
        FileContentV::V22(f) => Seq::new(
            f.content.objects.len(),
            |i: int|
                Object {
                    path_id: f.content.objects[i].path_id,
                    byte_start: f.content.objects[i].byte_start,
                    byte_size: f.content.objects[i].byte_size,
                    class: if 0 <= f.content.objects[i].type_id < f.content.types.len() {
                        f.content.types[f.content.objects[i].type_id as int].class_id
                    } else {
                        0
                    },
                    type_id: f.content.objects[i].type_id as usize,
                },
        ),
    }
}

/// The schema behind a type id: its tree and its class id.  Before
/// revision 19 the id is the class id itself and the table is searched;
/// from it on the id indexes the table.
pub open spec fn spec_class_args(c: FileContentV, type_id: usize) -> Option<(TypeTreeV, i32)> {
    match c {
        FileContentV::V10(f) => {
            let k = spec_find_class(f.content.types, type_id as i32, 0);
            if k < f.content.types.len() {
                Some((f.content.types[k].type_tree, f.content.types[k].class_id))
            } else {
                None
            }
        },
        FileContentV::V19(f) => {
            if type_id < f.content.types.len() {
                match f.content.types[type_id as int].type_tree {
                    Option::Some(t) => Option::Some((t, f.content.types[type_id as int].class_id)),
                    Option::None => Option::None,
                }
            } else {
                None
            }
        },
        FileContentV::V22(f) => {
            if type_id < f.content.types.len() {
                match f.content.types[type_id as int].type_tree {
                    Option::Some(t) => Option::Some((t, f.content.types[type_id as int].class_id)),
                    Option::None => Option::None,
                }
            } else {
                None
            }
        },
    }
}

/// First index at or after `j` of a revision-10 type-table entry with the
/// given class id, or the table's length.
pub open spec fn spec_find_class(
    types: Seq<version10::SerializedTypeV>,
    class_id: i32,
    j: int,
) -> int
    decreases types.len() - j,
    when 0 <= j
{
    if j >= types.len() {
        types.len() as int
    } else if types[j].class_id == class_id {
        j
    } else {
        spec_find_class(types, class_id, j + 1)
    }
}

/// First index at or after `j` of the object with the given path id, or
/// the index's length.
pub open spec fn spec_find_object(objs: Seq<Object>, path_id: i64, j: int) -> int
    decreases objs.len() - j,
    when 0 <= j
{
    if j >= objs.len() {
        objs.len() as int
    } else if objs[j].path_id == path_id {
        j
    } else {
        spec_find_object(objs, path_id, j + 1)
    }
}

/// True when every name and type name of the tree's nodes is valid UTF-8.
pub open spec fn spec_names_ok(t: TypeTreeV) -> bool {
    forall|i: int|
        #![trigger spec_resolved_nodes(t)[i]]
        0 <= i < t.blobs.len() ==> vstd::utf8::valid_utf8(spec_resolved_nodes(t)[i].name)
            && vstd::utf8::valid_utf8(spec_resolved_nodes(t)[i].ty_name)
}

/// The payload byte range of an object, when it lies inside the file.
pub open spec fn spec_payload(data: Seq<u8>, c: FileContentV, o: Object) -> Option<Seq<u8>> {
    let start = spec_data_offset(c) + o.byte_start;
    if start + o.byte_size <= data.len() {
        Some(data.subrange(start as int, start + o.byte_size))
    } else {
        None
    }
}

/// One serialized file behind the facade: the parsed metadata of whichever
/// revision it declares, and the file's bytes for slicing object payloads.
#[derive(Debug, Clone)]
pub struct SerializedFile {
    pub content: FileContent,
    pub data: Vec<u8>,
}

/// True when the bytes parse as a file of a supported revision.
pub open spec fn spec_read_ok(d: Seq<u8>) -> bool {
    &&& d.len() >= 16
    &&& {
        let v = raw::spec_u32_at(d, 8, false);
        ||| (v == 10 && version10::spec_file(d) is Some)
        ||| (v == 19 && version19::spec_file(d) is Some)
        ||| (v == 22 && version22::spec_file(d) is Some)
    }
}

/// The parsed metadata of bytes that parse as a supported revision.
pub open spec fn spec_read_content(d: Seq<u8>) -> FileContentV
    recommends
        spec_read_ok(d),
{
    let v = raw::spec_u32_at(d, 8, false);
    if v == 10 {
        FileContentV::V10(version10::spec_file(d).unwrap())
    } else if v == 19 {
        FileContentV::V19(version19::spec_file(d).unwrap())
    } else {
        FileContentV::V22(version22::spec_file(d).unwrap())
    }
}

impl SerializedFile {
    /// Selects the adapter for the declared format version and parses the
    /// file with it.  A version that matches no adapter is refused with
    /// [`Error::NoMatchingFormat`] before any body parsing.
    pub fn read(data: Vec<u8>) -> (r: Result<SerializedFile, Error>)
        ensures
            r is Ok <==> spec_read_ok(data@),
            r matches Ok(sf) ==> sf.content@ == spec_read_content(data@) && sf.data@ == data@,
            data@.len() < 16 ==> r == Result::<SerializedFile, Error>::Err(Error::UnexpectedEof),
            data@.len() >= 16 ==> {
                let v = raw::spec_u32_at(data@, 8, false);
                &&& (v != 10 && v != 19 && v != 22) ==> r == Result::<SerializedFile, Error>::Err(
                    Error::NoMatchingFormat,
                )
                &&& v == 10 ==> match version10::spec_file(data@) {
                    Some(f) => r matches Ok(sf) && sf.content@ == FileContentV::V10(f) && sf.data@
                        == data@,
                    None => r.is_err(),
                }
                &&& v == 19 ==> match version19::spec_file(data@) {
                    Some(f) => r matches Ok(sf) && sf.content@ == FileContentV::V19(f) && sf.data@
                        == data@,
                    None => r.is_err(),
                }
                &&& v == 22 ==> match version22::spec_file(data@) {
                    Some(f) => r matches Ok(sf) && sf.content@ == FileContentV::V22(f) && sf.data@
                        == data@,
                    None => r.is_err(),
                }
            },
    {
        let header = match read_common_header(&data) {
            Ok(v) => v,
            Err(e) => { return Err(e) },
        };
        if header.version == 10 {
            match version10::SerializedFile::read(&data) {
                Ok(f) => Ok(SerializedFile { content: FileContent::V10(f), data }),
                Err(e) => Err(e),
            }
        } else if header.version == 19 {
            match version19::SerializedFile::read(&data) {
                Ok(f) => Ok(SerializedFile { content: FileContent::V19(f), data }),
                Err(e) => Err(e),
            }
        } else if header.version == 22 {
            match version22::SerializedFile::read(&data) {
                Ok(f) => Ok(SerializedFile { content: FileContent::V22(f), data }),
                Err(e) => Err(e),
            }
        } else {
            Err(Error::NoMatchingFormat)
        }
    }

    /// The declared format version.
    pub fn get_serialized_file_version(&self) -> (r: u32)
        ensures
            r == spec_version(self.content@),
    {
        match &self.content {
            FileContent::V10(f) => f.header.version,
            FileContent::V19(f) => f.header.version,
            FileContent::V22(f) => f.header.version,
        }
    }

    /// The offset where object payload bytes begin.
    pub fn get_data_offset(&self) -> (r: u64)
        ensures
            r == spec_data_offset(self.content@),
    {
        match &self.content {
            FileContent::V10(f) => f.header.data_offset as u64,
            FileContent::V19(f) => f.header.data_offset as u64,
            FileContent::V22(f) => f.header2.data_offset,
        }
    }

    /// The content's byte order.
    pub fn get_endianess(&self) -> (r: Endian)
        ensures
            r == spec_endian(self.content@),
    {
        match &self.content {
            FileContent::V10(f) => f.endianess,
            FileContent::V19(f) => f.endianess,
            FileContent::V22(f) => f.endianess,
        }
    }

    /// The declared engine version bytes.
    pub fn get_unity_version(&self) -> (r: &Vec<u8>)
        ensures
            r@ == spec_unity_version(self.content@),
    {
        match &self.content {
            FileContent::V10(f) => &f.content.unity_version,
            FileContent::V19(f) => &f.content.unity_version,
            FileContent::V22(f) => &f.content.unity_version,
        }
    }

    /// The declared target platform.
    pub fn get_target_platform(&self) -> (r: BuildTarget)
        ensures
            r == spec_target_platform(self.content@),
    {
        match &self.content {
            FileContent::V10(f) => f.content.target_platform,
            FileContent::V19(f) => f.content.target_platform,
            FileContent::V22(f) => f.content.target_platform,
        }
    }

    /// Whether the file carries embedded type trees.
    pub fn get_enable_type_tree(&self) -> (r: bool)
        ensures
            r == spec_enable_type_tree(self.content@),
    {
        match &self.content {
            FileContent::V10(_) => true,
            FileContent::V19(f) => f.content.enable_type_tree,
            FileContent::V22(f) => f.content.enable_type_tree,
        }
    }

    /// The externals list.
    pub fn get_externals(&self) -> (r: &Vec<FileIdentifier>)
        ensures
            r.deep_view() == spec_externals(self.content@),
    {
        match &self.content {
            FileContent::V10(f) => &f.content.externals,
            FileContent::V19(f) => &f.content.externals,
            FileContent::V22(f) => &f.content.externals,
        }
    }

    /// The object index, normalized across revisions.
    pub fn get_objects_metadata(&self) -> (r: Vec<Object>)
        ensures
            r.deep_view() == spec_objects_metadata(self.content@),
    {
        let mut out: Vec<Object> = Vec::new();
        match &self.content {
            FileContent::V10(f) => {
                let n = f.content.objects.len();
                let mut i: usize = 0;
                while i < n
                    invariant
                        n == f.content.objects@.len(),
                        i <= n,
                        out@.len() == i,
                        forall|j: int|
                            0 <= j < i ==> out@[j] == spec_objects_metadata(
                                FileContentV::V10(f@),
                            )[j],
                    decreases n - i,
                {
                    let o = f.content.objects[i];
                    out.push(
                        Object {
                            path_id: o.path_id,
                            byte_start: o.byte_start as u64,
                            byte_size: o.byte_size,
                            class: o.class_id as i32,
                            type_id: o.type_id as usize,
                        },
                    );
                    i += 1;
                }
                proof {
                    assert(out.deep_view() =~= spec_objects_metadata(self.content@));
                }
            },
            FileContent::V19(f) => {
                let n = f.content.objects.len();
                let mut i: usize = 0;
                while i < n
                    invariant
                        n == f.content.objects@.len(),
                        i <= n,
                        out@.len() == i,
                        forall|j: int|
                            0 <= j < i ==> out@[j] == spec_objects_metadata(
                                FileContentV::V19(f@),
                            )[j],
                    decreases n - i,
                {
                    let o = f.content.objects[i];
                    let class = if o.type_id >= 0 && (o.type_id as usize) < f.content.types.len() {
                        f.content.types[o.type_id as usize].class_id
                    } else {
                        0
                    };
                    proof {
                        assert(f.content.types.deep_view().len() == f.content.types@.len());
                        if 0 <= o.type_id < f.content.types@.len() {
                            assert(f.content.types.deep_view()[o.type_id as int]
                                == f.content.types@[o.type_id as int]@);
                        }
                    }
                    out.push(
                        Object {
                            path_id: o.path_id,
                            byte_start: o.byte_start as u64,
                            byte_size: o.byte_size,
                            class,
                            type_id: o.type_id as usize,
                        },
                    );
                    i += 1;
                }
                proof {
                    assert(out.deep_view() =~= spec_objects_metadata(self.content@));
                }
            },
            FileContent::V22(f) => {
                let n = f.content.objects.len();
                let mut i: usize = 0;
                while i < n
                    invariant
                        n == f.content.objects@.len(),
                        i <= n,
                        out@.len() == i,
                        forall|j: int|
                            0 <= j < i ==> out@[j] == spec_objects_metadata(
                                FileContentV::V22(f@),
                            )[j],
                    decreases n - i,
                {
                    let o = f.content.objects[i];
                    let class = if o.type_id >= 0 && (o.type_id as usize) < f.content.types.len() {
                        f.content.types[o.type_id as usize].class_id
                    } else {
                        0
                    };
                    proof {
                        assert(f.content.types.deep_view().len() == f.content.types@.len());
                        if 0 <= o.type_id < f.content.types@.len() {
                            assert(f.content.types.deep_view()[o.type_id as int]
                                == f.content.types@[o.type_id as int]@);
                        }
                    }
                    out.push(
                        Object {
                            path_id: o.path_id,
                            byte_start: o.byte_start,
                            byte_size: o.byte_size,
                            class,
                            type_id: o.type_id as usize,
                        },
                    );
                    i += 1;
                }
                proof {
                    assert(out.deep_view() =~= spec_objects_metadata(self.content@));
                }
            },
        }
        out
    }

    /// The decoding arguments of the schema a type id names: its resolved
    /// nodes and its class id.  `None` when the id names no table entry,
    /// the entry carries no tree, or a tree string is not UTF-8.
    pub fn get_type_object_args_by_type_id(&self, type_id: usize) -> (r: Option<
        TypeTreeObjectBinReadClassArgs,
    >)
        ensures
            match spec_class_args(self.content@, type_id) {
                Some((t, cid)) => {
                    &&& spec_names_ok(t) ==> (r matches Some(a) && a.class_id == cid
                        && a.type_fields.deep_view() == spec_resolved_nodes(t))
                    &&& r matches Some(a) ==> a.class_id == cid && a.type_fields.deep_view()
                        == spec_resolved_nodes(t) && spec_names_ok(t)
                },
                None => r is None,
            },
    {
        match &self.content {
            FileContent::V10(f) => {
                let ghost typesv = f.content.types.deep_view();
                let n = f.content.types.len();
                let mut i: usize = 0;
                while i < n
                    invariant
                        self.content@ == FileContentV::V10(f@),
                        n == f.content.types@.len(),
                        typesv == f.content.types.deep_view(),
                        typesv.len() == n,
                        i <= n,
                        forall|j: int|
                            0 <= j < i ==> #[trigger] typesv[j].class_id != type_id as i32,
                    decreases n - i,
                {
                    proof {
                        assert(typesv[i as int] == f.content.types@[i as int]@);
                    }
                    if f.content.types[i].class_id == type_id as i32 {
                        proof {
                            lemma_find_class_prefix(typesv, type_id as i32, i as int);
                        }
                        let tree = &f.content.types[i].type_tree;
                        match resolve_type_tree(tree) {
                            Ok(fields) => {
                                proof {
                                    lemma_resolved_names_ok(tree@, fields);
                                }
                                return Some(TypeTreeObjectBinReadClassArgs::new(
                                    f.content.types[i].class_id,
                                    fields,
                                ));
                            },
                            Err(_) => {
                                proof {
                                    assert(!spec_names_ok(tree@));
                                }
                                return None;
                            },
                        }
                    }
                    i += 1;
                }
                proof {
                    lemma_find_class_prefix(typesv, type_id as i32, n as int);
                }
                None
            },
            FileContent::V19(f) => {
                if type_id >= f.content.types.len() {
                    return None;
                }
                proof {
                    assert(f.content.types.deep_view()[type_id as int]
                        == f.content.types@[type_id as int]@);
                }
                let entry = &f.content.types[type_id];
                match &entry.type_tree {
                    Some(tree) => {
                        match resolve_type_tree(tree) {
                            Ok(fields) => {
                                proof {
                                    lemma_resolved_names_ok(tree@, fields);
                                }
                                Some(TypeTreeObjectBinReadClassArgs::new(entry.class_id, fields))
                            },
                            Err(_) => {
                                proof {
                                    assert(!spec_names_ok(tree@));
                                }
                                None
                            },
                        }
                    },
                    None => None,
                }
            },
            FileContent::V22(f) => {
                if type_id >= f.content.types.len() {
                    return None;
                }
                proof {
                    assert(f.content.types.deep_view()[type_id as int]
                        == f.content.types@[type_id as int]@);
                }
                let entry = &f.content.types[type_id];
                match &entry.type_tree {
                    Some(tree) => {
                        match resolve_type_tree(tree) {
                            Ok(fields) => {
                                proof {
                                    lemma_resolved_names_ok(tree@, fields);
                                }
                                Some(TypeTreeObjectBinReadClassArgs::new(entry.class_id, fields))
                            },
                            Err(_) => {
                                proof {
                                    assert(!spec_names_ok(tree@));
                                }
                                None
                            },
                        }
                    },
                    None => None,
                }
            },
        }
    }

    /// Decodes the object a path id names.  A path id of zero is the
    /// defined "no object" and yields `Ok(None)` without a decode.
    pub fn get_tt_object_by_path_id(&self, path_id: i64) -> (r: Result<Option<TypeTreeObject>, Error>)
        ensures
            spec_tt_object_post(self.data@, self.content@, path_id, r),
    {
        if path_id == 0 {
            return Ok(None);
        }
        let objs = self.get_objects_metadata();
        let ghost objsv = spec_objects_metadata(self.content@);
        let n = objs.len();
        let mut k: usize = 0;
        while k < n
            invariant
                path_id != 0,
                n == objs@.len(),
                objs.deep_view() == objsv,
                objsv == spec_objects_metadata(self.content@),
                objsv.len() == n,
                k <= n,
                forall|j: int| 0 <= j < k ==> #[trigger] objsv[j].path_id != path_id,
            decreases n - k,
        {
            proof {
                assert(objsv[k as int] == objs@[k as int]);
            }
            if objs[k].path_id == path_id {
                proof {
                    lemma_find_object_prefix(objsv, path_id, k as int);
                }
                let o = objs[k];
                let args = match self.get_type_object_args_by_type_id(o.type_id) {
                    Some(a) => a,
                    None => { return Err(Error::SchemaNotFound) },
                };
                let doff = self.get_data_offset();
                let dlen: usize = self.data.len();
                let start128: u64 = match doff.checked_add(o.byte_start) {
                    Some(v) => v,
                    None => { return Err(Error::UnexpectedEof) },
                };
                if !(start128 <= usize::MAX as u64 && o.byte_size as u64 <= usize::MAX as u64) {
                    return Err(Error::UnexpectedEof);
                }
                let start = start128 as usize;
                let size = o.byte_size as usize;
                if !(start <= dlen && size <= dlen - start) {
                    return Err(Error::UnexpectedEof);
                }
                let (payload, _) = match raw::read_bytes(&self.data, start, size) {
                    Ok(v) => v,
                    Err(e) => { return Err(e) },
                };
                let little = self.get_endianess().is_little();
                match decode_object(&args.type_fields, &payload, little) {
                    Ok((vn, _)) => {
                        return Ok(Some(TypeTreeObject {
                            class_id: args.class_id,
                            serialized_file_id: 0,
                            data: vn,
                        }));
                    },
                    Err(e) => { return Err(e) },
                }
            }
            k += 1;
        }
        proof {
            lemma_find_object_prefix(objsv, path_id, n as int);
        }
        Err(Error::ObjectNotFound)
    }
}

/// A tree whose resolved nodes equal the views of real strings has only
/// valid UTF-8 names: the byte view of a string is its UTF-8 encoding.
proof fn lemma_resolved_names_ok(t: TypeTreeV, fields: Vec<TypeTreeNode>)
    requires
        fields.deep_view() == spec_resolved_nodes(t),
    ensures
        spec_names_ok(t),
{
    broadcast use vstd::utf8::encode_utf8_valid_utf8;

    assert forall|ix: int| 0 <= ix < t.blobs.len() implies vstd::utf8::valid_utf8(
        #[trigger] spec_resolved_nodes(t)[ix].name,
    ) && vstd::utf8::valid_utf8(spec_resolved_nodes(t)[ix].ty_name) by {
        assert(spec_resolved_nodes(t).len() == t.blobs.len());
        assert(spec_resolved_nodes(t)[ix] == fields.deep_view()[ix]);
        assert(fields.deep_view()[ix] == fields@[ix].deep_view());
    }
}

/// What [`SerializedFile::get_tt_object_by_path_id`] promises of its
/// result: a path id of zero is "no object"; otherwise the object index,
/// the schema table, the payload range and the decoding relation pin the
/// outcome.
pub open spec fn spec_tt_object_post(
    datav: Seq<u8>,
    c: FileContentV,
    path_id: i64,
    r: Result<Option<TypeTreeObject>, Error>,
) -> bool {
    &&& path_id == 0 ==> (r matches Ok(o) && o is None)
    &&& path_id != 0 ==> {
        let objs = spec_objects_metadata(c);
        let k = spec_find_object(objs, path_id, 0);
        if k >= objs.len() {
            r == Result::<Option<TypeTreeObject>, Error>::Err(Error::ObjectNotFound)
        } else {
            match spec_class_args(c, objs[k].type_id) {
                Option::None => r == Result::<Option<TypeTreeObject>, Error>::Err(
                    Error::SchemaNotFound,
                ),
                Option::Some((t, cid)) => {
                    if !spec_names_ok(t) {
                        r.is_err()
                    } else {
                        match spec_payload(datav, c, objs[k]) {
                            Option::None => r == Result::<Option<TypeTreeObject>, Error>::Err(
                                Error::UnexpectedEof,
                            ),
                            Option::Some(payload) => match spec_decode_object(
                                spec_resolved_nodes(t),
                                payload,
                                spec_endian(c) == Endian::Little,
                            ) {
                                Option::Some((vn, _)) => r matches Ok(o) && o matches Some(x)
                                    && x.class_id == cid && x.serialized_file_id == 0 && x.data@
                                    == vn,
                                Option::None => r.is_err(),
                            },
                        }
                    }
                },
            }
        }
    }
}

/// Resolving the same path id twice against an unchanged file yields the
/// same outcome, and on success value trees with identical content: the
/// decoded tree is a function of the file's bytes and metadata alone.
pub proof fn lemma_resolution_idempotent(
    datav: Seq<u8>,
    c: FileContentV,
    path_id: i64,
    r1: Result<Option<TypeTreeObject>, Error>,
    r2: Result<Option<TypeTreeObject>, Error>,
)
    requires
        spec_tt_object_post(datav, c, path_id, r1),
        spec_tt_object_post(datav, c, path_id, r2),
    ensures
        r1 is Ok <==> r2 is Ok,
        r1 is Ok && r2 is Ok ==> (r1.unwrap() is Some <==> r2.unwrap() is Some),
        r1 is Ok && r2 is Ok && r1.unwrap() is Some && r2.unwrap() is Some ==> r1.unwrap().unwrap().data@
            == r2.unwrap().unwrap().data@ && r1.unwrap().unwrap().class_id
            == r2.unwrap().unwrap().class_id,
{
}

/// When the first `k` table entries have another class id, the scan for it
/// starts at `k`.
proof fn lemma_find_class_prefix(types: Seq<version10::SerializedTypeV>, class_id: i32, k: int)
    requires
        0 <= k <= types.len(),
        forall|j: int| 0 <= j < k ==> #[trigger] types[j].class_id != class_id,
    ensures
        k < types.len() && types[k].class_id == class_id ==> spec_find_class(types, class_id, 0)
            == k,
        k == types.len() ==> spec_find_class(types, class_id, 0) == types.len(),
{
    lemma_find_class_skip(types, class_id, 0, k);
}

proof fn lemma_find_class_skip(types: Seq<version10::SerializedTypeV>, class_id: i32, j: int, k: int)
    requires
        0 <= j <= k <= types.len(),
        forall|x: int| j <= x < k ==> #[trigger] types[x].class_id != class_id,
    ensures
        spec_find_class(types, class_id, j) == spec_find_class(types, class_id, k),
    decreases k - j,
{
    if j < k {
        lemma_find_class_skip(types, class_id, j + 1, k);
    }
}

/// When the first `k` objects have another path id, the scan for it starts
/// at `k`.
proof fn lemma_find_object_prefix(objs: Seq<Object>, path_id: i64, k: int)
    requires
        0 <= k <= objs.len(),
        forall|j: int| 0 <= j < k ==> #[trigger] objs[j].path_id != path_id,
    ensures
        k < objs.len() && objs[k].path_id == path_id ==> spec_find_object(objs, path_id, 0) == k,
        k == objs.len() ==> spec_find_object(objs, path_id, 0) == objs.len(),
{
    lemma_find_object_skip(objs, path_id, 0, k);
}

proof fn lemma_find_object_skip(objs: Seq<Object>, path_id: i64, j: int, k: int)
    requires
        0 <= j <= k <= objs.len(),
        forall|x: int| j <= x < k ==> #[trigger] objs[x].path_id != path_id,
    ensures
        spec_find_object(objs, path_id, j) == spec_find_object(objs, path_id, k),
    decreases k - j,
{
    if j < k {
        lemma_find_object_skip(objs, path_id, j + 1, k);
    }
}

} // verus!
