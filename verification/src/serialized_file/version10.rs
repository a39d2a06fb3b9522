//! Format revision 10: type trees always embedded, class ids stored on
//! each object, and a legacy flag selecting narrow or wide path ids.

use vstd::prelude::*;
use crate::error::Error;
use crate::raw;
use crate::type_tree::{TypeTree, TypeTreeV, spec_type_tree_at, read_type_tree};
use crate::until::Endian;
use super::{BuildTarget, FileIdentifier, FileIdentifierV, SerializedFileCommonHeader,
    spec_common_header, read_common_header, spec_fids_at, read_fids};

verus! {

/// One entry of the type table: the class id and its embedded tree.
#[derive(Debug, Clone)]
pub struct SerializedType {
    pub class_id: i32,
    pub type_tree: TypeTree,
}

/// Spec-level image of a [`SerializedType`].
pub ghost struct SerializedTypeV {
    pub class_id: i32,
    pub type_tree: TypeTreeV,
}

impl View for SerializedType {
    type V = SerializedTypeV;

    open spec fn view(&self) -> SerializedTypeV {
        SerializedTypeV { class_id: self.class_id, type_tree: self.type_tree@ }
    }
}

impl DeepView for SerializedType {
    type V = SerializedTypeV;

    open spec fn deep_view(&self) -> SerializedTypeV {
        self.view()
    }
}

/// The type-table entry stored at `p`: a class id and a type tree.
pub open spec fn spec_stype_at(d: Seq<u8>, p: int, little: bool) -> Option<(SerializedTypeV, int)> {
    if !raw::spec_has(d, p, 4) {
        None
    } else {
        match spec_type_tree_at(d, p + 4, little) {
            Option::None => Option::None,
            Option::Some((t, q)) => Option::Some(
                (SerializedTypeV { class_id: raw::spec_i32_at(d, p, little), type_tree: t }, q),
            ),
        }
    }
}

/// The `n` type-table entries stored from `p` on.
pub open spec fn spec_stypes_at(d: Seq<u8>, p: int, n: int, little: bool) -> Option<
    (Seq<SerializedTypeV>, int),
>
    decreases n,
    when 0 <= n
{
    if n == 0 {
        Some((Seq::empty(), p))
    } else {
        match spec_stype_at(d, p, little) {
            Option::None => Option::None,
            Option::Some((v, q)) => {
                if q < 0 {
                    None
                } else {
                    match spec_stypes_at(d, q, n - 1, little) {
                        Option::None => Option::None,
                        Option::Some((rest, q2)) => Option::Some((seq![v] + rest, q2)),
                    }
                }
            },
        }
    }
}

/// Reads `n` type-table entries.
pub fn read_stypes(d: &Vec<u8>, p: usize, n: u32, little: bool) -> (r: Result<
    (Vec<SerializedType>, usize),
    Error,
>)
    requires
        p <= d@.len(),
    ensures
        match spec_stypes_at(d@, p as int, n as int, little) {
            Some(v) => r matches Ok(x) && x.0.deep_view() == v.0 && x.1 == v.1 && x.1 <= d@.len(),
            None => r.is_err(),
        },
    decreases n,
{
    if n == 0 {
        let out: Vec<SerializedType> = Vec::new();
        proof {
            assert(out.deep_view() =~= Seq::<SerializedTypeV>::empty());
        }
        return Ok((out, p));
    }
    let (class_id, p1) = match raw::read_i32(d, p, little) {
        Ok(v) => v,
        Err(e) => { return Err(e) },
    };
    let (tree, q) = match read_type_tree(d, p1, little) {
        Ok(v) => v,
        Err(e) => { return Err(e) },
    };
    proof {
        let sv = spec_type_tree_at(d@, p1 as int, little).unwrap();
        assert(sv.1 <= d@.len());
    }
    let (rest, q2) = match read_stypes(d, q, n - 1, little) {
        Ok(v) => v,
        Err(e) => { return Err(e) },
    };
    let mut out: Vec<SerializedType> = Vec::new();
    out.push(SerializedType { class_id, type_tree: tree });
    let mut rest = rest;
    out.append(&mut rest);
    proof {
        let sv = spec_stypes_at(d@, p as int, n as int, little).unwrap();
        assert(out.deep_view() =~= sv.0);
    }
    Ok((out, q2))
}

/// One entry of the object index for this revision.
#[derive(Debug, Clone, Copy, PartialEq, Eq, Structural)]
pub struct Object {
    pub path_id: i64,
    pub byte_start: u32,
    pub byte_size: u32,
    pub type_id: i32,
    pub class_id: u16,
    pub is_destroyed: u16,
}

impl DeepView for Object {
    type V = Object;

    open spec fn deep_view(&self) -> Object {
        *self
    }
}

/// The object-index entry stored at `p`: a path id that is 64 bits wide
/// when the file enables big ids and 32 bits otherwise, then start, size,
/// type id, class id and the destroyed marker.
pub open spec fn spec_obj_at(d: Seq<u8>, p: int, big_id: bool, little: bool) -> Option<
    (Object, int),
> {
    let idw: int = if big_id { 8 } else { 4 };
    if !raw::spec_has(d, p, idw + 16) {
        None
    } else {
        let path_id: i64 = if big_id {
            raw::spec_i64_at(d, p, little)
        } else {
            raw::spec_i32_at(d, p, little) as i64
        };
        let b = p + idw;
        Some(
            (
                Object {
                    path_id,
                    byte_start: raw::spec_u32_at(d, b, little),
                    byte_size: raw::spec_u32_at(d, b + 4, little),
                    type_id: raw::spec_i32_at(d, b + 8, little),
                    class_id: raw::spec_u16_at(d, b + 12, little),
                    is_destroyed: raw::spec_u16_at(d, b + 14, little),
                },
                b + 16,
            ),
        )
    }
}

/// The `n` object-index entries stored from `p` on.
pub open spec fn spec_objs_at(d: Seq<u8>, p: int, n: int, big_id: bool, little: bool) -> Option<
    (Seq<Object>, int),
>
    decreases n,
    when 0 <= n
{
    if n == 0 {
        Some((Seq::empty(), p))
    } else {
        match spec_obj_at(d, p, big_id, little) {
            Option::None => Option::None,
            Option::Some((v, q)) => {
                match spec_objs_at(d, q, n - 1, big_id, little) {
                    Option::None => Option::None,
                    Option::Some((rest, q2)) => Option::Some((seq![v] + rest, q2)),
                }
            },
        }
    }
}

/// Reads `n` object-index entries.
#[verifier::rlimit(100)]
pub fn read_objs(d: &Vec<u8>, p: usize, n: u32, big_id: bool, little: bool) -> (r: Result<
    (Vec<Object>, usize),
    Error,
>)
    requires
        p <= d@.len(),
    ensures
        match spec_objs_at(d@, p as int, n as int, big_id, little) {
            Some(v) => r matches Ok(x) && x.0.deep_view() == v.0 && x.1 == v.1 && x.1 <= d@.len(),
            None => r.is_err(),
        },
    decreases n,
{
    if n == 0 {
        let out: Vec<Object> = Vec::new();
        proof {
            assert(out.deep_view() =~= Seq::<Object>::empty());
        }
        return Ok((out, p));
    }
    let (path_id, pb) = if big_id {
        match raw::read_i64(d, p, little) {
            Ok((v, q)) => (v, q),
            Err(e) => { return Err(e) },
        }
    } else {
        match raw::read_i32(d, p, little) {
            Ok((v, q)) => (v as i64, q),
            Err(e) => { return Err(e) },
        }
    };
    let (byte_start, _) = match raw::read_u32(d, pb, little) {
        Ok(v) => v,
        Err(e) => { return Err(e) },
    };
    let (byte_size, _) = match raw::read_u32(d, pb + 4, little) {
        Ok(v) => v,
        Err(e) => { return Err(e) },
    };
    let (type_id, _) = match raw::read_i32(d, pb + 8, little) {
        Ok(v) => v,
        Err(e) => { return Err(e) },
    };
    let (class_id, _) = match raw::read_u16(d, pb + 12, little) {
        Ok(v) => v,
        Err(e) => { return Err(e) },
    };
    let (is_destroyed, q) = match raw::read_u16(d, pb + 14, little) {
        Ok(v) => v,
        Err(e) => { return Err(e) },
    };
    let v = Object { path_id, byte_start, byte_size, type_id, class_id, is_destroyed };
    let (rest, q2) = match read_objs(d, q, n - 1, big_id, little) {
        Ok(x) => x,
        Err(e) => { return Err(e) },
    };
    let mut out: Vec<Object> = Vec::new();
    out.push(v);
    let mut rest = rest;
    out.append(&mut rest);
    proof {
        let sv = spec_objs_at(d@, p as int, n as int, big_id, little).unwrap();
        assert(out.deep_view() =~= sv.0);
    }
    Ok((out, q2))
}

/// The metadata body of this revision.
#[derive(Debug, Clone)]
pub struct SerializedFileContent {
    pub unity_version: Vec<u8>,
    pub target_platform: BuildTarget,
    pub types: Vec<SerializedType>,
    pub big_id_enabled: i32,
    pub objects: Vec<Object>,
    pub externals: Vec<FileIdentifier>,
    pub user_information: Vec<u8>,
}

/// Spec-level image of a [`SerializedFileContent`].
pub ghost struct SerializedFileContentV {
    pub unity_version: Seq<u8>,
    pub target_platform: BuildTarget,
    pub types: Seq<SerializedTypeV>,
    pub big_id_enabled: i32,
    pub objects: Seq<Object>,
    pub externals: Seq<FileIdentifierV>,
    pub user_information: Seq<u8>,
}

impl View for SerializedFileContent {
    type V = SerializedFileContentV;

    open spec fn view(&self) -> SerializedFileContentV {
        SerializedFileContentV {
            unity_version: self.unity_version@,
            target_platform: self.target_platform,
            types: self.types.deep_view(),
            big_id_enabled: self.big_id_enabled,
            objects: self.objects.deep_view(),
            externals: self.externals.deep_view(),
            user_information: self.user_information@,
        }
    }
}

/// The metadata body stored at `p`: engine version, target platform, the
/// type table, the big-id flag, the object index, the externals and the
/// free-form user information.
pub open spec fn spec_content_at(d: Seq<u8>, p: int, little: bool) -> Option<
    (SerializedFileContentV, int),
> {
    let z0 = raw::spec_zero_at(d, p);
    if p < 0 || z0 >= d.len() {
        None
    } else {
        let uv = d.subrange(p, z0);
        let p1 = z0 + 1;
        if !raw::spec_has(d, p1, 8) {
            None
        } else {
            let platform = raw::spec_u32_at(d, p1, little);
            let type_count = raw::spec_u32_at(d, p1 + 4, little);
            match spec_stypes_at(d, p1 + 8, type_count as int, little) {
                Option::None => Option::None,
                Option::Some((types, p2)) => {
                    if !raw::spec_has(d, p2, 8) {
                        Option::None
                    } else {
                        let big_id_enabled = raw::spec_i32_at(d, p2, little);
                        let object_count = raw::spec_i32_at(d, p2 + 4, little);
                        if object_count < 0 {
                            Option::None
                        } else {
                            match spec_objs_at(
                                d,
                                p2 + 8,
                                object_count as int,
                                big_id_enabled != 0,
                                little,
                            ) {
                                Option::None => Option::None,
                                Option::Some((objects, p3)) => spec_content_tail(
                                    d,
                                    p3,
                                    little,
                                    uv,
                                    platform,
                                    types,
                                    big_id_enabled,
                                    objects,
                                ),
                            }
                        }
                    }
                },
            }
        }
    }
}

/// The externals list and user information that end the metadata body.
pub open spec fn spec_content_tail(
    d: Seq<u8>,
    p3: int,
    little: bool,
    uv: Seq<u8>,
    platform: u32,
    types: Seq<SerializedTypeV>,
    big_id_enabled: i32,
    objects: Seq<Object>,
) -> Option<(SerializedFileContentV, int)> {
    if !raw::spec_has(d, p3, 4) {
        None
    } else {
        let externals_count = raw::spec_i32_at(d, p3, little);
        if externals_count < 0 {
            None
        } else {
            match spec_fids_at(d, p3 + 4, externals_count as int, little) {
                Option::None => Option::None,
                Option::Some((externals, p4)) => {
                    let z1 = raw::spec_zero_at(d, p4);
                    if p4 < 0 || p4 > d.len() || z1 >= d.len() {
                        Option::None
                    } else {
                        Option::Some(
                            (
                                SerializedFileContentV {
                                    unity_version: uv,
                                    target_platform: BuildTarget(platform),
                                    types,
                                    big_id_enabled,
                                    objects,
                                    externals,
                                    user_information: d.subrange(p4, z1),
                                },
                                z1 + 1,
                            ),
                        )
                    }
                },
            }
        }
    }
}

/// Reads the metadata body stored at `p`.
#[verifier::rlimit(100)]
pub fn read_content(d: &Vec<u8>, p: usize, little: bool) -> (r: Result<
    (SerializedFileContent, usize),
    Error,
>)
    requires
        p <= d@.len(),
    ensures
        match spec_content_at(d@, p as int, little) {
            Some(v) => r matches Ok(x) && x.0@ == v.0 && x.1 == v.1 && x.1 <= d@.len(),
            None => r.is_err(),
        },
{
    let (unity_version, p1) = match raw::read_nullstr(d, p) {
        Ok(v) => v,
        Err(e) => { return Err(e) },
    };
    proof {
        raw::lemma_zero_at_bounds(d@, p as int);
    }
    let (platform, _) = match raw::read_u32(d, p1, little) {
        Ok(v) => v,
        Err(e) => { return Err(e) },
    };
    let (type_count, pt) = match raw::read_u32(d, p1 + 4, little) {
        Ok(v) => v,
        Err(e) => { return Err(e) },
    };
    let (types, p2) = match read_stypes(d, pt, type_count, little) {
        Ok(v) => v,
        Err(e) => { return Err(e) },
    };
    let (big_id_enabled, _) = match raw::read_i32(d, p2, little) {
        Ok(v) => v,
        Err(e) => { return Err(e) },
    };
    let (object_count, po) = match raw::read_i32(d, p2 + 4, little) {
        Ok(v) => v,
        Err(e) => { return Err(e) },
    };
    if object_count < 0 {
        return Err(Error::InvalidValue);
    }
    let (objects, p3) = match read_objs(d, po, object_count as u32, big_id_enabled != 0, little) {
        Ok(v) => v,
        Err(e) => { return Err(e) },
    };
    let (externals_count, _) = match raw::read_i32(d, p3, little) {
        Ok(v) => v,
        Err(e) => { return Err(e) },
    };
    if externals_count < 0 {
        return Err(Error::InvalidValue);
    }
    let (externals, p4) = match read_fids(d, p3 + 4, externals_count as u32, little) {
        Ok(v) => v,
        Err(e) => { return Err(e) },
    };
    let (user_information, pend) = match raw::read_nullstr(d, p4) {
        Ok(v) => v,
        Err(e) => { return Err(e) },
    };
    proof {
        raw::lemma_zero_at_bounds(d@, p4 as int);
    }
    Ok((
        SerializedFileContent {
            unity_version,
            target_platform: BuildTarget(platform),
            types,
            big_id_enabled,
            objects,
            externals,
            user_information,
        },
        pend,
    ))
}

/// A parsed revision-10 serialized file.
#[derive(Debug, Clone)]
pub struct SerializedFile {
    pub header: SerializedFileCommonHeader,
    pub endianess: Endian,
    pub content: SerializedFileContent,
}

/// Spec-level image of a parsed file of this revision.
pub ghost struct SerializedFileV {
    pub header: SerializedFileCommonHeader,
    pub endianess: Endian,
    pub content: SerializedFileContentV,
}

impl View for SerializedFile {
    type V = SerializedFileV;

    open spec fn view(&self) -> SerializedFileV {
        SerializedFileV {
            header: self.header,
            endianess: self.endianess,
            content: self.content@,
        }
    }
}

/// A whole revision-10 file: the big-endian common header, the byte-order
/// marker with three reserved bytes, and the metadata body in that byte
/// order.
pub open spec fn spec_file(d: Seq<u8>) -> Option<SerializedFileV> {
    if d.len() < 20 {
        None
    } else if d[16] > 1 {
        None
    } else {
        let endian = if d[16] == 0 {
            Endian::Little
        } else {
            Endian::Big
        };
        match spec_content_at(d, 20, endian == Endian::Little) {
            Option::None => Option::None,
            Option::Some((c, _)) => Option::Some(
                SerializedFileV { header: spec_common_header(d), endianess: endian, content: c },
            ),
        }
    }
}

impl SerializedFile {
    /// Parses a revision-10 file.
    pub fn read(d: &Vec<u8>) -> (r: Result<SerializedFile, Error>)
        ensures
            match spec_file(d@) {
                Some(v) => r matches Ok(f) && f@ == v,
                None => r.is_err(),
            },
    {
        let header = match read_common_header(d) {
            Ok(v) => v,
            Err(e) => { return Err(e) },
        };
        if d.len() < 20 {
            return Err(Error::UnexpectedEof);
        }
        let endianess = match Endian::from_u8(d[16]) {
            Ok(v) => v,
            Err(e) => { return Err(e) },
        };
        let (content, _) = match read_content(d, 20, endianess.is_little()) {
            Ok(v) => v,
            Err(e) => { return Err(e) },
        };
        Ok(SerializedFile { header, endianess, content })
    }
}

} // verus!
