//! Format revision 22: the revision-19 layout with a second, wider header
//! block (64-bit sizes and offsets), 64-bit object starts, and a table of
//! reference types for object-graph-valued generic fields.

use vstd::prelude::*;
use crate::error::Error;
use crate::raw;
use crate::type_tree::{TypeTree, TypeTreeV, spec_type_tree_at, read_type_tree};
use crate::until::Endian;
use super::{BuildTarget, FileIdentifier, FileIdentifierV, ScriptType, SerializedFileCommonHeader,
    spec_common_header, read_common_header, spec_fids_at, read_fids, spec_scripts_at, read_scripts};
use super::version19::{SerializedType, SerializedTypeV, spec_stypes_at, read_stypes};

verus! {

/// The second header block of this revision, stored big-endian.
#[derive(Debug, Clone, Copy, PartialEq, Eq, Structural)]
pub struct SerializedFileHeader {
    pub metadata_size: u32,
    pub file_size: u64,
    pub data_offset: u64,
    pub unknown: u64,
}

/// The wide header block stored at `p`.
pub open spec fn spec_header2_at(d: Seq<u8>, p: int) -> SerializedFileHeader {
    SerializedFileHeader {
        metadata_size: raw::spec_u32_at(d, p, false),
        file_size: raw::spec_u64_at(d, p + 4, false),
        data_offset: raw::spec_u64_at(d, p + 12, false),
        unknown: raw::spec_u64_at(d, p + 20, false),
    }
}

/// One entry of the reference-type table: a type-table entry shape without
/// a script id, followed by the class, namespace and assembly names.
#[derive(Debug, Clone)]
pub struct SerializedRefType {
    pub class_id: i32,
    pub is_stripped_type: bool,
    pub script_type_index: i16,
    pub old_type_hash: Vec<u8>,
    pub type_tree: Option<TypeTree>,
    pub class_name: Vec<u8>,
    pub name_space: Vec<u8>,
    pub asm_name: Vec<u8>,
}

/// Spec-level image of a [`SerializedRefType`].
pub ghost struct SerializedRefTypeV {
    pub class_id: i32,
    pub is_stripped_type: bool,
    pub script_type_index: i16,
    pub old_type_hash: Seq<u8>,
    pub type_tree: Option<TypeTreeV>,
    pub class_name: Seq<u8>,
    pub name_space: Seq<u8>,
    pub asm_name: Seq<u8>,
}

impl View for SerializedRefType {
    type V = SerializedRefTypeV;

    open spec fn view(&self) -> SerializedRefTypeV {
        SerializedRefTypeV {
            class_id: self.class_id,
            is_stripped_type: self.is_stripped_type,
            script_type_index: self.script_type_index,
            old_type_hash: self.old_type_hash@,
            type_tree: match self.type_tree {
                Option::Some(t) => Option::Some(t@),
                Option::None => Option::None,
            },
            class_name: self.class_name@,
            name_space: self.name_space@,
            asm_name: self.asm_name@,
        }
    }
}

impl DeepView for SerializedRefType {
    type V = SerializedRefTypeV;

    open spec fn deep_view(&self) -> SerializedRefTypeV {
        self.view()
    }
}

/// The reference-type entry stored at `p`.
pub open spec fn spec_reftype_at(d: Seq<u8>, p: int, little: bool, enable: bool) -> Option<
    (SerializedRefTypeV, int),
> {
    if !raw::spec_has(d, p, 23) {
        None
    } else {
        let class_id = raw::spec_i32_at(d, p, little);
        let stripped = d[p + 4] != 0;
        let sti = raw::spec_u16_at(d, p + 5, little) as i16;
        let hash = d.subrange(p + 7, p + 23);
        let pt = p + 23;
        let tq: Option<(Option<TypeTreeV>, int)> = if enable {
            match spec_type_tree_at(d, pt, little) {
                Option::None => Option::None,
                Option::Some((t, q)) => Option::Some((Option::Some(t), q)),
            }
        } else {
            Option::Some((Option::None, pt))
        };
        match tq {
            Option::None => Option::None,
            Option::Some((tree, q0)) => {
                let z0 = raw::spec_zero_at(d, q0);
                if q0 < 0 || q0 > d.len() || z0 >= d.len() {
                    None
                } else {
                    let z1 = raw::spec_zero_at(d, z0 + 1);
                    if z1 >= d.len() {
                        None
                    } else {
                        let z2 = raw::spec_zero_at(d, z1 + 1);
                        if z2 >= d.len() {
                            None
                        } else {
                            Some(
                                (
                                    SerializedRefTypeV {
                                        class_id,
                                        is_stripped_type: stripped,
                                        script_type_index: sti,
                                        old_type_hash: hash,
                                        type_tree: tree,
                                        class_name: d.subrange(q0, z0),
                                        name_space: d.subrange(z0 + 1, z1),
                                        asm_name: d.subrange(z1 + 1, z2),
                                    },
                                    z2 + 1,
                                ),
                            )
                        }
                    }
                }
            },
        }
    }
}

/// Reads one reference-type entry.
#[verifier::rlimit(100)]
pub fn read_reftype(d: &Vec<u8>, p: usize, little: bool, enable: bool) -> (r: Result<
    (SerializedRefType, usize),
    Error,
>)
    requires
        p <= d@.len(),
    ensures
        match spec_reftype_at(d@, p as int, little, enable) {
            Some(v) => r matches Ok(x) && x.0@ == v.0 && x.1 == v.1 && x.1 <= d@.len(),
            None => r.is_err(),
        },
{
    if !(d.len() >= 23 && p <= d.len() - 23) {
        return Err(Error::UnexpectedEof);
    }
    let (class_id, _) = match raw::read_i32(d, p, little) {
        Ok(v) => v,
        Err(e) => { return Err(e) },
    };
    let (stripped_b, _) = match raw::read_u8(d, p + 4) {
        Ok(v) => v,
        Err(e) => { return Err(e) },
    };
    let (sti_u, _) = match raw::read_u16(d, p + 5, little) {
        Ok(v) => v,
        Err(e) => { return Err(e) },
    };
    let (hash, pt) = match raw::read_bytes(d, p + 7, 16) {
        Ok(v) => v,
        Err(e) => { return Err(e) },
    };
    let (tree, q0) = if enable {
        match read_type_tree(d, pt, little) {
            Ok((t, q)) => (Some(t), q),
            Err(e) => { return Err(e) },
        }
    } else {
        (None, pt)
    };
    proof {
        if enable {
            let sv = spec_type_tree_at(d@, pt as int, little).unwrap();
            assert(sv.1 <= d@.len());
        }
    }
    let (class_name, q1) = match raw::read_nullstr(d, q0) {
        Ok(v) => v,
        Err(e) => { return Err(e) },
    };
    proof {
        raw::lemma_zero_at_bounds(d@, q0 as int);
    }
    let (name_space, q2) = match raw::read_nullstr(d, q1) {
        Ok(v) => v,
        Err(e) => { return Err(e) },
    };
    proof {
        raw::lemma_zero_at_bounds(d@, q1 as int);
    }
    let (asm_name, q3) = match raw::read_nullstr(d, q2) {
        Ok(v) => v,
        Err(e) => { return Err(e) },
    };
    proof {
        raw::lemma_zero_at_bounds(d@, q2 as int);
    }
    Ok((
        SerializedRefType {
            class_id,
            is_stripped_type: stripped_b != 0,
            script_type_index: sti_u as i16,
            old_type_hash: hash,
            type_tree: tree,
            class_name,
            name_space,
            asm_name,
        },
        q3,
    ))
}

/// The `n` reference-type entries stored from `p` on.
pub open spec fn spec_reftypes_at(d: Seq<u8>, p: int, n: int, little: bool, enable: bool) -> Option<
    (Seq<SerializedRefTypeV>, int),
>
    decreases n,
    when 0 <= n
{
    if n == 0 {
        Some((Seq::empty(), p))
    } else {
        match spec_reftype_at(d, p, little, enable) {
            Option::None => Option::None,
            Option::Some((v, q)) => {
                if q < 0 {
                    None
                } else {
                    match spec_reftypes_at(d, q, n - 1, little, enable) {
                        Option::None => Option::None,
                        Option::Some((rest, q2)) => Option::Some((seq![v] + rest, q2)),
                    }
                }
            },
        }
    }
}

/// Reads `n` reference-type entries.
pub fn read_reftypes(d: &Vec<u8>, p: usize, n: u32, little: bool, enable: bool) -> (r: Result<
    (Vec<SerializedRefType>, usize),
    Error,
>)
    requires
        p <= d@.len(),
    ensures
        match spec_reftypes_at(d@, p as int, n as int, little, enable) {
            Some(v) => r matches Ok(x) && x.0.deep_view() == v.0 && x.1 == v.1 && x.1 <= d@.len(),
            None => r.is_err(),
        },
    decreases n,
{
    if n == 0 {
        let out: Vec<SerializedRefType> = Vec::new();
        proof {
            assert(out.deep_view() =~= Seq::<SerializedRefTypeV>::empty());
        }
        return Ok((out, p));
    }
    let (v, q) = match read_reftype(d, p, little, enable) {
        Ok(x) => x,
        Err(e) => { return Err(e) },
    };
    let (rest, q2) = match read_reftypes(d, q, n - 1, little, enable) {
        Ok(x) => x,
        Err(e) => { return Err(e) },
    };
    let mut out: Vec<SerializedRefType> = Vec::new();
    out.push(v);
    let mut rest = rest;
    out.append(&mut rest);
    proof {
        let sv = spec_reftypes_at(d@, p as int, n as int, little, enable).unwrap();
        assert(out.deep_view() =~= sv.0);
    }
    Ok((out, q2))
}

/// One entry of the object index for this revision.
#[derive(Debug, Clone, Copy, PartialEq, Eq, Structural)]
pub struct Object {
    pub path_id: i64,
    pub byte_start: u64,
    pub byte_size: u32,
    pub type_id: i32,
}

impl DeepView for Object {
    type V = Object;

    open spec fn deep_view(&self) -> Object {
        *self
    }
}

/// The object-index entry stored at `p`: after alignment to four bytes, a
/// 64-bit path id, a 64-bit start, a 32-bit size and a 32-bit type index.
pub open spec fn spec_obj_at(d: Seq<u8>, p: int, little: bool) -> Option<(Object, int)> {
    let a = raw::spec_align4(p);
    if !raw::spec_has(d, a, 24) {
        None
    } else {
        Some(
            (
                Object {
                    path_id: raw::spec_i64_at(d, a, little),
                    byte_start: raw::spec_u64_at(d, a + 8, little),
                    byte_size: raw::spec_u32_at(d, a + 16, little),
                    type_id: raw::spec_i32_at(d, a + 20, little),
                },
                a + 24,
            ),
        )
    }
}

/// Reads one object-index entry.
pub fn read_obj(d: &Vec<u8>, p: usize, little: bool) -> (r: Result<(Object, usize), Error>)
    requires
        p <= d@.len(),
    ensures
        match spec_obj_at(d@, p as int, little) {
            Some(v) => r matches Ok(x) && x.0 == v.0 && x.1 == v.1 && x.1 <= d@.len(),
            None => r.is_err(),
        },
{
    let dlen: usize = d.len();
    let a = match raw::align4(p) {
        Ok(x) => x,
        Err(e) => { return Err(e) },
    };
    if a > dlen {
        return Err(Error::UnexpectedEof);
    }
    let (path_id, _) = match raw::read_i64(d, a, little) {
        Ok(x) => x,
        Err(e) => { return Err(e) },
    };
    let (byte_start, _) = match raw::read_u64(d, a + 8, little) {
        Ok(x) => x,
        Err(e) => { return Err(e) },
    };
    let (byte_size, _) = match raw::read_u32(d, a + 16, little) {
        Ok(x) => x,
        Err(e) => { return Err(e) },
    };
    let (type_id, q) = match raw::read_i32(d, a + 20, little) {
        Ok(x) => x,
        Err(e) => { return Err(e) },
    };
    Ok((Object { path_id, byte_start, byte_size, type_id }, q))
}

/// The `n` object-index entries stored from `p` on.
pub open spec fn spec_objs_at(d: Seq<u8>, p: int, n: int, little: bool) -> Option<
    (Seq<Object>, int),
>
    decreases n,
    when 0 <= n
{
    if n == 0 {
        Some((Seq::empty(), p))
    } else {
        match spec_obj_at(d, p, little) {
            Option::None => Option::None,
            Option::Some((v, q)) => {
                match spec_objs_at(d, q, n - 1, little) {
                    Option::None => Option::None,
                    Option::Some((rest, q2)) => Option::Some((seq![v] + rest, q2)),
                }
            },
        }
    }
}

/// Reads `n` object-index entries.
pub fn read_objs(d: &Vec<u8>, p: usize, n: u32, little: bool) -> (r: Result<
    (Vec<Object>, usize),
    Error,
>)
    requires
        p <= d@.len(),
    ensures
        match spec_objs_at(d@, p as int, n as int, little) {
            Some(v) => r matches Ok(x) && x.0.deep_view() == v.0 && x.1 == v.1 && x.1 <= d@.len(),
            None => r.is_err(),
        },
    decreases n,
{
    if n == 0 {
        let out: Vec<Object> = Vec::new();
        proof {
            assert(out.deep_view() =~= Seq::<Object>::empty());
        }
        return Ok((out, p));
    }
    let (v, q) = match read_obj(d, p, little) {
        Ok(x) => x,
        Err(e) => { return Err(e) },
    };
    let (rest, q2) = match read_objs(d, q, n - 1, little) {
        Ok(x) => x,
        Err(e) => { return Err(e) },
    };
    let mut out: Vec<Object> = Vec::new();
    out.push(v);
    let mut rest = rest;
    out.append(&mut rest);
    proof {
        let sv = spec_objs_at(d@, p as int, n as int, little).unwrap();
        assert(out.deep_view() =~= sv.0);
    }
    Ok((out, q2))
}

/// The metadata body of this revision.
#[derive(Debug, Clone)]
pub struct SerializedFileContent {
    pub unity_version: Vec<u8>,
    pub target_platform: BuildTarget,
    pub enable_type_tree: bool,
    pub types: Vec<SerializedType>,
    pub objects: Vec<Object>,
    pub script_types: Vec<ScriptType>,
    pub externals: Vec<FileIdentifier>,
    pub ref_types: Vec<SerializedRefType>,
    pub user_information: Vec<u8>,
}

/// Spec-level image of a [`SerializedFileContent`].
pub ghost struct SerializedFileContentV {
    pub unity_version: Seq<u8>,
    pub target_platform: BuildTarget,
    pub enable_type_tree: bool,
    pub types: Seq<SerializedTypeV>,
    pub objects: Seq<Object>,
    pub script_types: Seq<ScriptType>,
    pub externals: Seq<FileIdentifierV>,
    pub ref_types: Seq<SerializedRefTypeV>,
    pub user_information: Seq<u8>,
}

impl View for SerializedFileContent {
    type V = SerializedFileContentV;

    open spec fn view(&self) -> SerializedFileContentV {
        SerializedFileContentV {
            unity_version: self.unity_version@,
            target_platform: self.target_platform,
            enable_type_tree: self.enable_type_tree,
            types: self.types.deep_view(),
            objects: self.objects.deep_view(),
            script_types: self.script_types.deep_view(),
            externals: self.externals.deep_view(),
            ref_types: self.ref_types.deep_view(),
            user_information: self.user_information@,
        }
    }
}

/// The metadata body stored at `p`: the revision-19 layout with the
/// reference-type table between the externals and the user information.
pub open spec fn spec_content_at(d: Seq<u8>, p: int, little: bool) -> Option<
    (SerializedFileContentV, int),
> {
    let z0 = raw::spec_zero_at(d, p);
    if p < 0 || z0 >= d.len() {
        None
    } else {
        let uv = d.subrange(p, z0);
        let p1 = z0 + 1;
        if !raw::spec_has(d, p1, 9) {
            None
        } else {
            let platform = raw::spec_u32_at(d, p1, little);
            let enable = d[p1 + 4] != 0;
            let type_count = raw::spec_u32_at(d, p1 + 5, little);
            match spec_stypes_at(d, p1 + 9, type_count as int, little, enable) {
                Option::None => Option::None,
                Option::Some((types, p2)) => {
                    if !raw::spec_has(d, p2, 4) {
                        Option::None
                    } else {
                        let object_count = raw::spec_i32_at(d, p2, little);
                        if object_count < 0 {
                            Option::None
                        } else {
                            match spec_objs_at(d, p2 + 4, object_count as int, little) {
                                Option::None => Option::None,
                                Option::Some((objects, p3)) => {
                                    if !raw::spec_has(d, p3, 4) {
                                        Option::None
                                    } else {
                                        let script_count = raw::spec_i32_at(d, p3, little);
                                        if script_count < 0 {
                                            Option::None
                                        } else {
                                            match spec_scripts_at(
                                                d,
                                                p3 + 4,
                                                script_count as int,
                                                little,
                                            ) {
                                                Option::None => Option::None,
                                                Option::Some((scripts, p4)) => {
                                                    if !raw::spec_has(d, p4, 4) {
                                                        Option::None
                                                    } else {
                                                        let externals_count = raw::spec_i32_at(
                                                            d,
                                                            p4,
                                                            little,
                                                        );
                                                        if externals_count < 0 {
                                                            Option::None
                                                        } else {
                                                            match spec_fids_at(
                                                                d,
                                                                p4 + 4,
                                                                externals_count as int,
                                                                little,
                                                            ) {
                                                                Option::None => Option::None,
                                                                Option::Some((externals, p5)) => {
                                                                    spec_content_tail(
                                                                        d,
                                                                        p5,
                                                                        little,
                                                                        uv,
                                                                        platform,
                                                                        enable,
                                                                        types,
                                                                        objects,
                                                                        scripts,
                                                                        externals,
                                                                    )
                                                                },
                                                            }
                                                        }
                                                    }
                                                },
                                            }
                                        }
                                    }
                                },
                            }
                        }
                    }
                },
            }
        }
    }
}

/// The reference-type table and user information that end the metadata
/// body.
pub open spec fn spec_content_tail(
    d: Seq<u8>,
    p5: int,
    little: bool,
    uv: Seq<u8>,
    platform: u32,
    enable: bool,
    types: Seq<SerializedTypeV>,
    objects: Seq<Object>,
    scripts: Seq<ScriptType>,
    externals: Seq<FileIdentifierV>,
) -> Option<(SerializedFileContentV, int)> {
    match spec_tail_parts(d, p5, little, enable) {
        Option::None => Option::None,
        Option::Some((ref_types, user_information, pend)) => Option::Some(
            (
                SerializedFileContentV {
                    unity_version: uv,
                    target_platform: BuildTarget(platform),
                    enable_type_tree: enable,
                    types,
                    objects,
                    script_types: scripts,
                    externals,
                    ref_types,
                    user_information,
                },
                pend,
            ),
        ),
    }
}

/// The reference types, the user information, and the end position that
/// close the metadata body.
pub open spec fn spec_tail_parts(d: Seq<u8>, p5: int, little: bool, enable: bool) -> Option<
    (Seq<SerializedRefTypeV>, Seq<u8>, int),
> {
    if !raw::spec_has(d, p5, 4) {
        None
    } else {
        let ref_count = raw::spec_i32_at(d, p5, little);
        if ref_count < 0 {
            None
        } else {
            match spec_reftypes_at(d, p5 + 4, ref_count as int, little, enable) {
                Option::None => Option::None,
                Option::Some((ref_types, p6)) => {
                    let z1 = raw::spec_zero_at(d, p6);
                    if p6 < 0 || p6 > d.len() || z1 >= d.len() {
                        Option::None
                    } else {
                        Option::Some((ref_types, d.subrange(p6, z1), z1 + 1))
                    }
                },
            }
        }
    }
}

/// Reads the metadata body stored at `p`.
#[verifier::rlimit(100)]
#[verifier::spinoff_prover]
pub fn read_content(d: &Vec<u8>, p: usize, little: bool) -> (r: Result<
    (SerializedFileContent, usize),
    Error,
>)
    requires
        p <= d@.len(),
    ensures
        match spec_content_at(d@, p as int, little) {
            Some(v) => r matches Ok(x) && x.0@ == v.0 && x.1 == v.1 && x.1 <= d@.len(),
            None => r.is_err(),
        },
{
    let (unity_version, p1) = match raw::read_nullstr(d, p) {
        Ok(v) => v,
        Err(e) => { return Err(e) },
    };
    proof {
        raw::lemma_zero_at_bounds(d@, p as int);
    }
    let (platform, _) = match raw::read_u32(d, p1, little) {
        Ok(v) => v,
        Err(e) => { return Err(e) },
    };
    let (enable_b, _) = match raw::read_u8(d, p1 + 4) {
        Ok(v) => v,
        Err(e) => { return Err(e) },
    };
    let (type_count, pt) = match raw::read_u32(d, p1 + 5, little) {
        Ok(v) => v,
        Err(e) => { return Err(e) },
    };
    let enable = enable_b != 0;
    let (types, p2) = match read_stypes(d, pt, type_count, little, enable) {
        Ok(v) => v,
        Err(e) => { return Err(e) },
    };
    let (object_count, _) = match raw::read_i32(d, p2, little) {
        Ok(v) => v,
        Err(e) => { return Err(e) },
    };
    if object_count < 0 {
        return Err(Error::InvalidValue);
    }
    let (objects, p3) = match read_objs(d, p2 + 4, object_count as u32, little) {
        Ok(v) => v,
        Err(e) => { return Err(e) },
    };
    let (script_count, _) = match raw::read_i32(d, p3, little) {
        Ok(v) => v,
        Err(e) => { return Err(e) },
    };
    if script_count < 0 {
        return Err(Error::InvalidValue);
    }
    let (script_types, p4) = match read_scripts(d, p3 + 4, script_count as u32, little) {
        Ok(v) => v,
        Err(e) => { return Err(e) },
    };
    let (externals_count, _) = match raw::read_i32(d, p4, little) {
        Ok(v) => v,
        Err(e) => { return Err(e) },
    };
    if externals_count < 0 {
        return Err(Error::InvalidValue);
    }
    let (externals, p5) = match read_fids(d, p4 + 4, externals_count as u32, little) {
        Ok(v) => v,
        Err(e) => { return Err(e) },
    };
    let ((ref_types, user_information), pend) = match read_content_tail(d, p5, little, enable) {
        Ok(v) => v,
        Err(e) => { return Err(e) },
    };
    Ok((
        SerializedFileContent {
            unity_version,
            target_platform: BuildTarget(platform),
            enable_type_tree: enable,
            types,
            objects,
            script_types,
            externals,
            ref_types,
            user_information,
        },
        pend,
    ))
}

/// Reads the reference-type table and user information that end the
/// metadata body.
fn read_content_tail(d: &Vec<u8>, p5: usize, little: bool, enable: bool) -> (r: Result<
    ((Vec<SerializedRefType>, Vec<u8>), usize),
    Error,
>)
    requires
        p5 <= d@.len(),
    ensures
        match spec_tail_parts(d@, p5 as int, little, enable) {
            Some(v) => r matches Ok(x) && x.0.0.deep_view() == v.0 && x.0.1@ == v.1 && x.1 == v.2
                && x.1 <= d@.len(),
            None => r.is_err(),
        },
{
    let (ref_count, _) = match raw::read_i32(d, p5, little) {
        Ok(v) => v,
        Err(e) => { return Err(e) },
    };
    if ref_count < 0 {
        return Err(Error::InvalidValue);
    }
    let (ref_types, p6) = match read_reftypes(d, p5 + 4, ref_count as u32, little, enable) {
        Ok(v) => v,
        Err(e) => { return Err(e) },
    };
    let (user_information, pend) = match raw::read_nullstr(d, p6) {
        Ok(v) => v,
        Err(e) => { return Err(e) },
    };
    proof {
        raw::lemma_zero_at_bounds(d@, p6 as int);
    }
    Ok(((ref_types, user_information), pend))
}

/// A parsed revision-22 serialized file.
#[derive(Debug, Clone)]
pub struct SerializedFile {
    pub header: SerializedFileCommonHeader,
    pub endianess: Endian,
    pub header2: SerializedFileHeader,
    pub content: SerializedFileContent,
}

/// Spec-level image of a parsed file of this revision.
pub ghost struct SerializedFileV {
    pub header: SerializedFileCommonHeader,
    pub endianess: Endian,
    pub header2: SerializedFileHeader,
    pub content: SerializedFileContentV,
}

impl View for SerializedFile {
    type V = SerializedFileV;

    open spec fn view(&self) -> SerializedFileV {
        SerializedFileV {
            header: self.header,
            endianess: self.endianess,
            header2: self.header2,
            content: self.content@,
        }
    }
}

/// A whole revision-22 file: the big-endian common header, the byte-order
/// marker with three reserved bytes, the big-endian wide header block, and
/// the metadata body in the marked byte order.
pub open spec fn spec_file(d: Seq<u8>) -> Option<SerializedFileV> {
    if d.len() < 48 {
        None
    } else if d[16] > 1 {
        None
    } else {
        let endian = if d[16] == 0 {
            Endian::Little
        } else {
            Endian::Big
        };
        match spec_content_at(d, 48, endian == Endian::Little) {
            Option::None => Option::None,
            Option::Some((c, _)) => Option::Some(
                SerializedFileV {
                    header: spec_common_header(d),
                    endianess: endian,
                    header2: spec_header2_at(d, 20),
                    content: c,
                },
            ),
        }
    }
}

impl SerializedFile {
    /// Parses a revision-22 file.
    pub fn read(d: &Vec<u8>) -> (r: Result<SerializedFile, Error>)
        ensures
            match spec_file(d@) {
                Some(v) => r matches Ok(f) && f@ == v,
                None => r.is_err(),
            },
    {
        let header = match read_common_header(d) {
            Ok(v) => v,
            Err(e) => { return Err(e) },
        };
        if d.len() < 48 {
            return Err(Error::UnexpectedEof);
        }
        let endianess = match Endian::from_u8(d[16]) {
            Ok(v) => v,
            Err(e) => { return Err(e) },
        };
        let (metadata_size, _) = match raw::read_u32(d, 20, false) {
            Ok(v) => v,
            Err(e) => { return Err(e) },
        };
        let (file_size, _) = match raw::read_u64(d, 24, false) {
            Ok(v) => v,
            Err(e) => { return Err(e) },
        };
        let (data_offset, _) = match raw::read_u64(d, 32, false) {
            Ok(v) => v,
            Err(e) => { return Err(e) },
        };
        let (unknown, _) = match raw::read_u64(d, 40, false) {
            Ok(v) => v,
            Err(e) => { return Err(e) },
        };
        let header2 = SerializedFileHeader { metadata_size, file_size, data_offset, unknown };
        let (content, _) = match read_content(d, 48, endianess.is_little()) {
            Ok(v) => v,
            Err(e) => { return Err(e) },
        };
        Ok(SerializedFile { header, endianess, header2, content })
    }
}

} // verus!
