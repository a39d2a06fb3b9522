//! Format revision 19: per-type embedded type trees behind an explicit
//! `enable_type_tree` flag, object class ids resolved through the type
//! table, and a script-type table.

use vstd::prelude::*;
use crate::error::Error;
use crate::raw;
use crate::type_tree::{TypeTree, TypeTreeV, TypeTreeNode, TypeTreeObjectBinReadClassArgs,
    spec_type_tree_at, read_type_tree, spec_resolved_nodes, resolve_type_tree};
use crate::until::Endian;
use super::{BuildTarget, FileIdentifier, FileIdentifierV, ScriptType, SerializedFileCommonHeader,
    spec_common_header, read_common_header, spec_fids_at, read_fids, spec_scripts_at, read_scripts};

verus! {

/// One entry of the type table.
#[derive(Debug, Clone)]
pub struct SerializedType {
    pub class_id: i32,
    pub is_stripped_type: bool,
    pub script_type_index: i16,
    pub script_id: Option<Vec<u8>>,
    pub old_type_hash: Vec<u8>,
    pub type_tree: Option<TypeTree>,
}

/// Spec-level image of a [`SerializedType`].
pub ghost struct SerializedTypeV {
    pub class_id: i32,
    pub is_stripped_type: bool,
    pub script_type_index: i16,
    pub script_id: Option<Seq<u8>>,
    pub old_type_hash: Seq<u8>,
    pub type_tree: Option<TypeTreeV>,
}

impl View for SerializedType {
    type V = SerializedTypeV;

    open spec fn view(&self) -> SerializedTypeV {
        SerializedTypeV {
            class_id: self.class_id,
            is_stripped_type: self.is_stripped_type,
            script_type_index: self.script_type_index,
            script_id: match self.script_id {
                Option::Some(v) => Option::Some(v@),
                Option::None => Option::None,
            },
            old_type_hash: self.old_type_hash@,
            type_tree: match self.type_tree {
                Option::Some(t) => Option::Some(t@),
                Option::None => Option::None,
            },
        }
    }
}

impl DeepView for SerializedType {
    type V = SerializedTypeV;

    open spec fn deep_view(&self) -> SerializedTypeV {
        self.view()
    }
}

/// The type-table entry stored at `p`: class id, stripped flag, script
/// index, a 16-byte script id for script classes, the 16-byte type hash,
/// and the embedded type tree when the file carries trees.
pub open spec fn spec_stype_at(d: Seq<u8>, p: int, little: bool, enable: bool) -> Option<
    (SerializedTypeV, int),
> {
    if !raw::spec_has(d, p, 7) {
        None
    } else {
        let class_id = raw::spec_i32_at(d, p, little);
        let stripped = d[p + 4] != 0;
        let sti = raw::spec_u16_at(d, p + 5, little) as i16;
        let p7 = p + 7;
        let sid_end = if class_id == 114 {
            p7 + 16
        } else {
            p7
        };
        if !raw::spec_has(d, p7, sid_end - p7 + 16) {
            None
        } else {
            let sid = if class_id == 114 {
                Option::Some(d.subrange(p7, p7 + 16))
            } else {
                Option::None
            };
            let hash = d.subrange(sid_end, sid_end + 16);
            if enable {
                match spec_type_tree_at(d, sid_end + 16, little) {
                    Option::None => Option::None,
                    Option::Some((t, q)) => Option::Some(
                        (
                            SerializedTypeV {
                                class_id,
                                is_stripped_type: stripped,
                                script_type_index: sti,
                                script_id: sid,
                                old_type_hash: hash,
                                type_tree: Option::Some(t),
                            },
                            q,
                        ),
                    ),
                }
            } else {
                Option::Some(
                    (
                        SerializedTypeV {
                            class_id,
                            is_stripped_type: stripped,
                            script_type_index: sti,
                            script_id: sid,
                            old_type_hash: hash,
                            type_tree: Option::None,
                        },
                        sid_end + 16,
                    ),
                )
            }
        }
    }
}

/// Reads one type-table entry.
pub fn read_stype(d: &Vec<u8>, p: usize, little: bool, enable: bool) -> (r: Result<
    (SerializedType, usize),
    Error,
>)
    requires
        p <= d@.len(),
    ensures
        match spec_stype_at(d@, p as int, little, enable) {
            Some(v) => r matches Ok(x) && x.0@ == v.0 && x.1 == v.1 && x.1 <= d@.len(),
            None => r.is_err(),
        },
{
    if !(d.len() >= 7 && p <= d.len() - 7) {
        return Err(Error::UnexpectedEof);
    }
    let (class_id, _) = match raw::read_i32(d, p, little) {
        Ok(v) => v,
        Err(e) => { return Err(e) },
    };
    let (stripped_b, _) = match raw::read_u8(d, p + 4) {
        Ok(v) => v,
        Err(e) => { return Err(e) },
    };
    let (sti_u, p7) = match raw::read_u16(d, p + 5, little) {
        Ok(v) => v,
        Err(e) => { return Err(e) },
    };
    let (script_id, psid) = if class_id == 114 {
        match raw::read_bytes(d, p7, 16) {
            Ok((v, q)) => (Some(v), q),
            Err(e) => { return Err(e) },
        }
    } else {
        (None, p7)
    };
    let (hash, ph) = match raw::read_bytes(d, psid, 16) {
        Ok(v) => v,
        Err(e) => { return Err(e) },
    };
    if enable {
        let (tree, q) = match read_type_tree(d, ph, little) {
            Ok(v) => v,
            Err(e) => { return Err(e) },
        };
        proof {
            let sv = spec_type_tree_at(d@, ph as int, little).unwrap();
            assert(sv.1 <= d@.len());
        }
        Ok((
            SerializedType {
                class_id,
                is_stripped_type: stripped_b != 0,
                script_type_index: sti_u as i16,
                script_id,
                old_type_hash: hash,
                type_tree: Some(tree),
            },
            q,
        ))
    } else {
        Ok((
            SerializedType {
                class_id,
                is_stripped_type: stripped_b != 0,
                script_type_index: sti_u as i16,
                script_id,
                old_type_hash: hash,
                type_tree: None,
            },
            ph,
        ))
    }
}

/// The `n` type-table entries stored from `p` on.
pub open spec fn spec_stypes_at(d: Seq<u8>, p: int, n: int, little: bool, enable: bool) -> Option<
    (Seq<SerializedTypeV>, int),
>
    decreases n,
    when 0 <= n
{
    if n == 0 {
        Some((Seq::empty(), p))
    } else {
        match spec_stype_at(d, p, little, enable) {
            Option::None => Option::None,
            Option::Some((v, q)) => {
                if q < 0 {
                    None
                } else {
                    match spec_stypes_at(d, q, n - 1, little, enable) {
                        Option::None => Option::None,
                        Option::Some((rest, q2)) => Option::Some((seq![v] + rest, q2)),
                    }
                }
            },
        }
    }
}

/// Reads `n` type-table entries.
pub fn read_stypes(d: &Vec<u8>, p: usize, n: u32, little: bool, enable: bool) -> (r: Result<
    (Vec<SerializedType>, usize),
    Error,
>)
    requires
        p <= d@.len(),
    ensures
        match spec_stypes_at(d@, p as int, n as int, little, enable) {
            Some(v) => r matches Ok(x) && x.0.deep_view() == v.0 && x.1 == v.1 && x.1 <= d@.len(),
            None => r.is_err(),
        },
    decreases n,
{
    if n == 0 {
        let out: Vec<SerializedType> = Vec::new();
        proof {
            assert(out.deep_view() =~= Seq::<SerializedTypeV>::empty());
        }
        return Ok((out, p));
    }
    let (v, q) = match read_stype(d, p, little, enable) {
        Ok(x) => x,
        Err(e) => { return Err(e) },
    };
    let (rest, q2) = match read_stypes(d, q, n - 1, little, enable) {
        Ok(x) => x,
        Err(e) => { return Err(e) },
    };
    let mut out: Vec<SerializedType> = Vec::new();
    out.push(v);
    let mut rest = rest;
    out.append(&mut rest);
    proof {
        let sv = spec_stypes_at(d@, p as int, n as int, little, enable).unwrap();
        assert(out.deep_view() =~= sv.0);
    }
    Ok((out, q2))
}

/// One entry of the object index for this revision.
#[derive(Debug, Clone, Copy, PartialEq, Eq, Structural)]
pub struct Object {
    pub path_id: i64,
    pub byte_start: u32,
    pub byte_size: u32,
    pub type_id: i32,
}

impl DeepView for Object {
    type V = Object;

    open spec fn deep_view(&self) -> Object {
        *self
    }
}

/// The object-index entry stored at `p`: after alignment to four bytes, a
/// 64-bit path id, a 32-bit start, a 32-bit size and a 32-bit type index.
pub open spec fn spec_obj_at(d: Seq<u8>, p: int, little: bool) -> Option<(Object, int)> {
    let a = raw::spec_align4(p);
    if !raw::spec_has(d, a, 20) {
        None
    } else {
        Some(
            (
                Object {
                    path_id: raw::spec_i64_at(d, a, little),
                    byte_start: raw::spec_u32_at(d, a + 8, little),
                    byte_size: raw::spec_u32_at(d, a + 12, little),
                    type_id: raw::spec_i32_at(d, a + 16, little),
                },
                a + 20,
            ),
        )
    }
}

/// Reads one object-index entry.
pub fn read_obj(d: &Vec<u8>, p: usize, little: bool) -> (r: Result<(Object, usize), Error>)
    requires
        p <= d@.len(),
    ensures
        match spec_obj_at(d@, p as int, little) {
            Some(v) => r matches Ok(x) && x.0 == v.0 && x.1 == v.1 && x.1 <= d@.len(),
            None => r.is_err(),
        },
{
    let dlen: usize = d.len();
    let a = match raw::align4(p) {
        Ok(x) => x,
        Err(e) => { return Err(e) },
    };
    if a > dlen {
        return Err(Error::UnexpectedEof);
    }
    let (path_id, _) = match raw::read_i64(d, a, little) {
        Ok(x) => x,
        Err(e) => { return Err(e) },
    };
    let (byte_start, _) = match raw::read_u32(d, a + 8, little) {
        Ok(x) => x,
        Err(e) => { return Err(e) },
    };
    let (byte_size, _) = match raw::read_u32(d, a + 12, little) {
        Ok(x) => x,
        Err(e) => { return Err(e) },
    };
    let (type_id, q) = match raw::read_i32(d, a + 16, little) {
        Ok(x) => x,
        Err(e) => { return Err(e) },
    };
    Ok((Object { path_id, byte_start, byte_size, type_id }, q))
}

/// The `n` object-index entries stored from `p` on.
pub open spec fn spec_objs_at(d: Seq<u8>, p: int, n: int, little: bool) -> Option<
    (Seq<Object>, int),
>
    decreases n,
    when 0 <= n
{
    if n == 0 {
        Some((Seq::empty(), p))
    } else {
        match spec_obj_at(d, p, little) {
            Option::None => Option::None,
            Option::Some((v, q)) => {
                match spec_objs_at(d, q, n - 1, little) {
                    Option::None => Option::None,
                    Option::Some((rest, q2)) => Option::Some((seq![v] + rest, q2)),
                }
            },
        }
    }
}

/// Reads `n` object-index entries.
pub fn read_objs(d: &Vec<u8>, p: usize, n: u32, little: bool) -> (r: Result<
    (Vec<Object>, usize),
    Error,
>)
    requires
        p <= d@.len(),
    ensures
        match spec_objs_at(d@, p as int, n as int, little) {
            Some(v) => r matches Ok(x) && x.0.deep_view() == v.0 && x.1 == v.1 && x.1 <= d@.len(),
            None => r.is_err(),
        },
    decreases n,
{
    if n == 0 {
        let out: Vec<Object> = Vec::new();
        proof {
            assert(out.deep_view() =~= Seq::<Object>::empty());
        }
        return Ok((out, p));
    }
    let (v, q) = match read_obj(d, p, little) {
        Ok(x) => x,
        Err(e) => { return Err(e) },
    };
    let (rest, q2) = match read_objs(d, q, n - 1, little) {
        Ok(x) => x,
        Err(e) => { return Err(e) },
    };
    let mut out: Vec<Object> = Vec::new();
    out.push(v);
    let mut rest = rest;
    out.append(&mut rest);
    proof {
        let sv = spec_objs_at(d@, p as int, n as int, little).unwrap();
        assert(out.deep_view() =~= sv.0);
    }
    Ok((out, q2))
}

/// The metadata body of this revision.
#[derive(Debug, Clone)]
pub struct SerializedFileContent {
    pub unity_version: Vec<u8>,
    pub target_platform: BuildTarget,
    pub enable_type_tree: bool,
    pub types: Vec<SerializedType>,
    pub objects: Vec<Object>,
    pub script_types: Vec<ScriptType>,
    pub externals: Vec<FileIdentifier>,
    pub user_information: Vec<u8>,
}

/// Spec-level image of a [`SerializedFileContent`].
pub ghost struct SerializedFileContentV {
    pub unity_version: Seq<u8>,
    pub target_platform: BuildTarget,
    pub enable_type_tree: bool,
    pub types: Seq<SerializedTypeV>,
    pub objects: Seq<Object>,
    pub script_types: Seq<ScriptType>,
    pub externals: Seq<FileIdentifierV>,
    pub user_information: Seq<u8>,
}

impl View for SerializedFileContent {
    type V = SerializedFileContentV;

    open spec fn view(&self) -> SerializedFileContentV {
        SerializedFileContentV {
            unity_version: self.unity_version@,
            target_platform: self.target_platform,
            enable_type_tree: self.enable_type_tree,
            types: self.types.deep_view(),
            objects: self.objects.deep_view(),
            script_types: self.script_types.deep_view(),
            externals: self.externals.deep_view(),
            user_information: self.user_information@,
        }
    }
}

/// The metadata body stored at `p`: engine version, target platform, the
/// type-tree flag, the type table, the object index, the script types, the
/// externals and the free-form user information.
pub open spec fn spec_content_at(d: Seq<u8>, p: int, little: bool) -> Option<
    (SerializedFileContentV, int),
> {
    let z0 = raw::spec_zero_at(d, p);
    if p < 0 || z0 >= d.len() {
        None
    } else {
        let uv = d.subrange(p, z0);
        let p1 = z0 + 1;
        if !raw::spec_has(d, p1, 9) {
            None
        } else {
            let platform = raw::spec_u32_at(d, p1, little);
            let enable = d[p1 + 4] != 0;
            let type_count = raw::spec_u32_at(d, p1 + 5, little);
            match spec_stypes_at(d, p1 + 9, type_count as int, little, enable) {
                Option::None => Option::None,
                Option::Some((types, p2)) => {
                    if !raw::spec_has(d, p2, 4) {
                        Option::None
                    } else {
                        let object_count = raw::spec_i32_at(d, p2, little);
                        if object_count < 0 {
                            Option::None
                        } else {
                            match spec_objs_at(d, p2 + 4, object_count as int, little) {
                                Option::None => Option::None,
                                Option::Some((objects, p3)) => {
                                    if !raw::spec_has(d, p3, 4) {
                                        Option::None
                                    } else {
                                        let script_count = raw::spec_i32_at(d, p3, little);
                                        if script_count < 0 {
                                            Option::None
                                        } else {
                                            match spec_scripts_at(
                                                d,
                                                p3 + 4,
                                                script_count as int,
                                                little,
                                            ) {
                                                Option::None => Option::None,
                                                Option::Some((scripts, p4)) => {
                                                    if !raw::spec_has(d, p4, 4) {
                                                        Option::None
                                                    } else {
                                                        let externals_count = raw::spec_i32_at(
                                                            d,
                                                            p4,
                                                            little,
                                                        );
                                                        if externals_count < 0 {
                                                            Option::None
                                                        } else {
                                                            match spec_fids_at(
                                                                d,
                                                                p4 + 4,
                                                                externals_count as int,
                                                                little,
                                                            ) {
                                                                Option::None => Option::None,
                                                                Option::Some((externals, p5)) => {
                                                                    let z1 = raw::spec_zero_at(
                                                                        d,
                                                                        p5,
                                                                    );
                                                                    if p5 > d.len() || z1
                                                                        >= d.len() {
                                                                        Option::None
                                                                    } else {
                                                                        Option::Some(
                                                                            (
                                                                                SerializedFileContentV {
                                                                                    unity_version:
                                                                                        uv,
                                                                                    target_platform:
                                                                                        BuildTarget(
                                                                                        platform,
                                                                                    ),
                                                                                    enable_type_tree:
                                                                                        enable,
                                                                                    types,
                                                                                    objects,
                                                                                    script_types:
                                                                                        scripts,
                                                                                    externals,
                                                                                    user_information:
                                                                                        d.subrange(
                                                                                        p5,
                                                                                        z1,
                                                                                    ),
                                                                                },
                                                                                z1 + 1,
                                                                            ),
                                                                        )
                                                                    }
                                                                },
                                                            }
                                                        }
                                                    }
                                                },
                                            }
                                        }
                                    }
                                },
                            }
                        }
                    }
                },
            }
        }
    }
}

/// Reads the metadata body stored at `p`.
#[verifier::rlimit(100)]
pub fn read_content(d: &Vec<u8>, p: usize, little: bool) -> (r: Result<
    (SerializedFileContent, usize),
    Error,
>)
    requires
        p <= d@.len(),
    ensures
        match spec_content_at(d@, p as int, little) {
            Some(v) => r matches Ok(x) && x.0@ == v.0 && x.1 == v.1 && x.1 <= d@.len(),
            None => r.is_err(),
        },
{
    let (unity_version, p1) = match raw::read_nullstr(d, p) {
        Ok(v) => v,
        Err(e) => { return Err(e) },
    };
    proof {
        raw::lemma_zero_at_bounds(d@, p as int);
    }
    let (platform, _) = match raw::read_u32(d, p1, little) {
        Ok(v) => v,
        Err(e) => { return Err(e) },
    };
    let (enable_b, _) = match raw::read_u8(d, p1 + 4) {
        Ok(v) => v,
        Err(e) => { return Err(e) },
    };
    let (type_count, pt) = match raw::read_u32(d, p1 + 5, little) {
        Ok(v) => v,
        Err(e) => { return Err(e) },
    };
    let enable = enable_b != 0;
    let (types, p2) = match read_stypes(d, pt, type_count, little, enable) {
        Ok(v) => v,
        Err(e) => { return Err(e) },
    };
    let (object_count, _) = match raw::read_i32(d, p2, little) {
        Ok(v) => v,
        Err(e) => { return Err(e) },
    };
    if object_count < 0 {
        return Err(Error::InvalidValue);
    }
    let (objects, p3) = match read_objs(d, p2 + 4, object_count as u32, little) {
        Ok(v) => v,
        Err(e) => { return Err(e) },
    };
    let (script_count, _) = match raw::read_i32(d, p3, little) {
        Ok(v) => v,
        Err(e) => { return Err(e) },
    };
    if script_count < 0 {
        return Err(Error::InvalidValue);
    }
    let (script_types, p4) = match read_scripts(d, p3 + 4, script_count as u32, little) {
        Ok(v) => v,
        Err(e) => { return Err(e) },
    };
    let (externals_count, _) = match raw::read_i32(d, p4, little) {
        Ok(v) => v,
        Err(e) => { return Err(e) },
    };
    if externals_count < 0 {
        return Err(Error::InvalidValue);
    }
    let (externals, p5) = match read_fids(d, p4 + 4, externals_count as u32, little) {
        Ok(v) => v,
        Err(e) => { return Err(e) },
    };
    let (user_information, pend) = match raw::read_nullstr(d, p5) {
        Ok(v) => v,
        Err(e) => { return Err(e) },
    };
    proof {
        raw::lemma_zero_at_bounds(d@, p5 as int);
    }
    Ok((
        SerializedFileContent {
            unity_version,
            target_platform: BuildTarget(platform),
            enable_type_tree: enable,
            types,
            objects,
            script_types,
            externals,
            user_information,
        },
        pend,
    ))
}

/// A parsed revision-19 serialized file.
#[derive(Debug, Clone)]
pub struct SerializedFile {
    pub header: SerializedFileCommonHeader,
    pub endianess: Endian,
    pub content: SerializedFileContent,
}

/// Spec-level image of a parsed file of this revision.
pub ghost struct SerializedFileV {
    pub header: SerializedFileCommonHeader,
    pub endianess: Endian,
    pub content: SerializedFileContentV,
}

impl View for SerializedFile {
    type V = SerializedFileV;

    open spec fn view(&self) -> SerializedFileV {
        SerializedFileV {
            header: self.header,
            endianess: self.endianess,
            content: self.content@,
        }
    }
}

/// A whole revision-19 file: the big-endian common header, the byte-order
/// marker with three reserved bytes, and the metadata body in that byte
/// order.
pub open spec fn spec_file(d: Seq<u8>) -> Option<SerializedFileV> {
    if d.len() < 20 {
        None
    } else if d[16] > 1 {
        None
    } else {
        let endian = if d[16] == 0 {
            Endian::Little
        } else {
            Endian::Big
        };
        match spec_content_at(d, 20, endian == Endian::Little) {
            Option::None => Option::None,
            Option::Some((c, _)) => Option::Some(
                SerializedFileV { header: spec_common_header(d), endianess: endian, content: c },
            ),
        }
    }
}

impl SerializedFile {
    /// Parses a revision-19 file.
    pub fn read(d: &Vec<u8>) -> (r: Result<SerializedFile, Error>)
        ensures
            match spec_file(d@) {
                Some(v) => r matches Ok(f) && f@ == v,
                None => r.is_err(),
            },
    {
        let header = match read_common_header(d) {
            Ok(v) => v,
            Err(e) => { return Err(e) },
        };
        if d.len() < 20 {
            return Err(Error::UnexpectedEof);
        }
        let endianess = match crate::until::Endian::from_u8(d[16]) {
            Ok(v) => v,
            Err(e) => { return Err(e) },
        };
        let (content, _) = match read_content(d, 20, endianess.is_little()) {
            Ok(v) => v,
            Err(e) => { return Err(e) },
        };
        Ok(SerializedFile { header, endianess, content })
    }
}

} // verus!
