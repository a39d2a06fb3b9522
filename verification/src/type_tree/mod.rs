//! The schema ("type tree") model: a class's field layout described at run
//! time as a flat, level-tagged sequence of nodes, together with a string
//! buffer that node names and type names point into.

pub mod reader;

use vstd::prelude::*;
use crate::error::Error;
use crate::raw;
use crate::strutil;
use crate::strutil::str8;

verus! {

/// One schema node as stored on disk: fixed-width fields, with the two
/// strings kept as byte offsets into the owning tree's string buffer.
///
/// `type_flags` bit 0 marks an array node.  In `meta_flag`, bit 0x4000 asks
/// for four-byte alignment after the node's data and bit 0x8000 says some
/// child asks for it.
#[derive(Debug, Clone, Copy, PartialEq, Eq, Structural)]
pub struct TypeTreeNodeBlob {
    pub version: u16,
    pub level: u8,
    pub type_flags: u8,
    pub type_str_offset: u32,
    pub name_str_offset: u32,
    pub byte_size: i32,
    pub index: i32,
    pub meta_flag: i32,
    pub ref_type_hash: u64,
}

/// The node blob stored at position `p`.
pub open spec fn spec_blob_at(d: Seq<u8>, p: int, little: bool) -> TypeTreeNodeBlob {
    TypeTreeNodeBlob {
        version: raw::spec_u16_at(d, p, little),
        level: d[p + 2],
        type_flags: d[p + 3],
        type_str_offset: raw::spec_u32_at(d, p + 4, little),
        name_str_offset: raw::spec_u32_at(d, p + 8, little),
        byte_size: raw::spec_i32_at(d, p + 12, little),
        index: raw::spec_i32_at(d, p + 16, little),
        meta_flag: raw::spec_i32_at(d, p + 20, little),
        ref_type_hash: raw::spec_u64_at(d, p + 24, little),
    }
}

/// Reads one node blob.
pub fn read_blob(d: &Vec<u8>, p: usize, little: bool) -> (r: Result<(TypeTreeNodeBlob, usize), Error>)
    ensures
        raw::spec_has(d@, p as int, 32) ==> (r matches Ok(v) && v.0
            == spec_blob_at(d@, p as int, little) && v.1 == p + 32),
        !raw::spec_has(d@, p as int, 32) ==> r == Result::<
            (TypeTreeNodeBlob, usize),
            Error,
        >::Err(Error::UnexpectedEof),
{
    if d.len() >= 32 && p <= d.len() - 32 {
        let (version, _) = read_u16_at(d, p, little);
        let level = d[p + 2];
        let type_flags = d[p + 3];
        let (type_str_offset, _) = read_u32_at(d, p + 4, little);
        let (name_str_offset, _) = read_u32_at(d, p + 8, little);
        let (byte_size, _) = read_i32_at(d, p + 12, little);
        let (index, _) = read_i32_at(d, p + 16, little);
        let (meta_flag, _) = read_i32_at(d, p + 20, little);
        let hash = match raw::read_u64(d, p + 24, little) {
            Ok((v, q)) => (v, q),
            Err(_) => { return Err(Error::UnexpectedEof) },
        };
        Ok((
            TypeTreeNodeBlob {
                version,
                level,
                type_flags,
                type_str_offset,
                name_str_offset,
                byte_size,
                index,
                meta_flag,
                ref_type_hash: hash.0,
            },
            p + 32,
        ))
    } else {
        Err(Error::UnexpectedEof)
    }
}

/// A type tree as a serialized file embeds it: the flat node sequence and
/// the string buffer the nodes' name and type offsets point into.
#[derive(Debug, Clone)]
pub struct TypeTree {
    pub type_tree_node_blobs: Vec<TypeTreeNodeBlob>,
    pub string_buffer: Vec<u8>,
}

/// Spec-level image of a parsed [`TypeTree`].
pub ghost struct TypeTreeV {
    pub blobs: Seq<TypeTreeNodeBlob>,
    pub string_buffer: Seq<u8>,
}

impl View for TypeTree {
    type V = TypeTreeV;

    open spec fn view(&self) -> TypeTreeV {
        TypeTreeV { blobs: self.type_tree_node_blobs@, string_buffer: self.string_buffer@ }
    }
}

/// The type tree stored at position `p`: a node count, a string buffer
/// size, the node blobs, then the buffer.  `None` when a count is negative
/// or the bytes end early.
pub open spec fn spec_type_tree_at(d: Seq<u8>, p: int, little: bool) -> Option<(TypeTreeV, int)> {
    if !raw::spec_has(d, p, 8) {
        None
    } else {
        let n = raw::spec_i32_at(d, p, little) as int;
        let m = raw::spec_i32_at(d, p + 4, little) as int;
        if n < 0 || m < 0 || !raw::spec_has(d, p + 8, n * 32 + m) {
            None
        } else {
            Some(
                (
                    TypeTreeV {
                        blobs: Seq::new(n as nat, |i: int| spec_blob_at(d, p + 8 + 32 * i, little)),
                        string_buffer: d.subrange(p + 8 + n * 32, p + 8 + n * 32 + m),
                    },
                    p + 8 + n * 32 + m,
                ),
            )
        }
    }
}

/// Parses the type tree stored at position `p`.
pub fn read_type_tree(d: &Vec<u8>, p: usize, little: bool) -> (r: Result<(TypeTree, usize), Error>)
    ensures
        match spec_type_tree_at(d@, p as int, little) {
            Some(v) => r matches Ok(t) && t.0@ == v.0 && t.1 == v.1,
            None => r.is_err(),
        },
{
    let (n, p1) = match raw::read_i32(d, p, little) {
        Ok(v) => v,
        Err(e) => { return Err(e) },
    };
    let (m, p2) = match raw::read_i32(d, p1, little) {
        Ok(v) => v,
        Err(e) => { return Err(e) },
    };
    if n < 0 || m < 0 {
        return Err(Error::InvalidValue);
    }
    let n = n as usize;
    let m = m as usize;
    let mut blobs: Vec<TypeTreeNodeBlob> = Vec::new();
    let mut pos: usize = p2;
    let mut i: usize = 0;
    while i < n
        invariant
            i <= n,
            pos == p2 + i * 32,
            p2 == p + 8,
            pos <= d@.len(),
            raw::spec_has(d@, p as int, 8),
            n as int == raw::spec_i32_at(d@, p as int, little) as int,
            m as int == raw::spec_i32_at(d@, p + 4, little) as int,
            blobs@.len() == i,
            forall|j: int| 0 <= j < i ==> blobs@[j] == spec_blob_at(d@, p2 + 32 * j, little),
        decreases n - i,
    {
        match read_blob(d, pos, little) {
            Ok((b, q)) => {
                blobs.push(b);
                pos = q;
            },
            Err(e) => {
                proof {
                    assert(!raw::spec_has(d@, pos as int, 32));
                    assert(n * 32 >= (i + 1) * 32) by (nonlinear_arith)
                        requires
                            i + 1 <= n,
                    ;
                    assert(!raw::spec_has(d@, p + 8, n * 32 + m));
                }
                return Err(e);
            },
        }
        i += 1;
    }

    let (buffer, pend) = match raw::read_bytes(d, pos, m) {
        Ok(v) => v,
        Err(e) => {
            proof {
                assert(!raw::spec_has(d@, p + 8, n * 32 + m));
            }
            return Err(e);
        },
    };
    proof {
        let v = spec_type_tree_at(d@, p as int, little).unwrap();
        assert(blobs@ =~= v.0.blobs);
        assert(buffer@ =~= v.0.string_buffer);
    }
    Ok((TypeTree { type_tree_node_blobs: blobs, string_buffer: buffer }, pend))
}

/// The zero-terminated byte string at `off` in a string buffer: the bytes
/// from `off` up to the first zero byte or the end of the buffer, and empty
/// when `off` lies at or past the end.
pub open spec fn spec_buffer_string(b: Seq<u8>, off: int) -> Seq<u8> {
    if 0 <= off <= b.len() {
        b.subrange(off, raw::spec_zero_at(b, off))
    } else {
        Seq::empty()
    }
}

/// Recovers the string at byte offset `off` of `b`.
pub fn buffer_string(b: &Vec<u8>, off: u32) -> (r: Vec<u8>)
    ensures
        r@ == spec_buffer_string(b@, off as int),
{
    let off = off as usize;
    if off >= b.len() {
        proof {
            if off == b@.len() {
                raw::lemma_zero_at_bounds(b@, off as int);
                assert(b@.subrange(off as int, off as int) =~= Seq::<u8>::empty());
            }
        }
        return Vec::new();
    }
    proof {
        raw::lemma_zero_at_bounds(b@, off as int);
    }
    let mut e: usize = off;
    while e < b.len() && b[e] != 0
        invariant
            off <= e <= b@.len(),
            raw::spec_zero_at(b@, off as int) == raw::spec_zero_at(b@, e as int),
        decreases b@.len() - e,
    {
        e += 1;
    }
    proof {
        raw::lemma_zero_at_bounds(b@, e as int);
    }
    match raw::read_bytes(b, off, e - off) {
        Ok((v, _)) => v,
        Err(_) => Vec::new(),
    }
}

impl TypeTreeNodeBlob {
    /// The node's type name, recovered from the owning tree's string buffer.
    pub fn get_type_str(&self, string_buffer: &Vec<u8>) -> (r: Result<String, Error>)
        ensures
            vstd::utf8::valid_utf8(spec_buffer_string(string_buffer@, self.type_str_offset as int))
                ==> (r matches Ok(s) && str8(s@) == spec_buffer_string(
                string_buffer@,
                self.type_str_offset as int,
            )),
            !vstd::utf8::valid_utf8(spec_buffer_string(string_buffer@, self.type_str_offset as int))
                ==> r == Result::<String, Error>::Err(Error::InvalidUtf8),
    {
        let bytes = buffer_string(string_buffer, self.type_str_offset);
        strutil::utf8_to_string(&bytes)
    }

    /// The node's field name, recovered from the owning tree's string buffer.
    pub fn get_name_str(&self, string_buffer: &Vec<u8>) -> (r: Result<String, Error>)
        ensures
            vstd::utf8::valid_utf8(spec_buffer_string(string_buffer@, self.name_str_offset as int))
                ==> (r matches Ok(s) && str8(s@) == spec_buffer_string(
                string_buffer@,
                self.name_str_offset as int,
            )),
            !vstd::utf8::valid_utf8(spec_buffer_string(string_buffer@, self.name_str_offset as int))
                ==> r == Result::<String, Error>::Err(Error::InvalidUtf8),
    {
        let bytes = buffer_string(string_buffer, self.name_str_offset);
        strutil::utf8_to_string(&bytes)
    }
}

/// A schema node with its two strings resolved: what the decoder and all
/// downstream interpreters work from.
#[derive(Debug, Clone)]
pub struct TypeTreeNode {
    pub name: String,
    pub ty_name: String,
    pub node: TypeTreeNodeBlob,
}

/// Spec-level image of a [`TypeTreeNode`]: the strings as their UTF-8 bytes.
pub ghost struct TypeTreeNodeV {
    pub name: Seq<u8>,
    pub ty_name: Seq<u8>,
    pub node: TypeTreeNodeBlob,
}

impl View for TypeTreeNode {
    type V = TypeTreeNodeV;

    open spec fn view(&self) -> TypeTreeNodeV {
        TypeTreeNodeV {
            name: str8(self.name@),
            ty_name: str8(self.ty_name@),
            node: self.node,
        }
    }
}

impl DeepView for TypeTreeNode {
    type V = TypeTreeNodeV;

    open spec fn deep_view(&self) -> TypeTreeNodeV {
        self.view()
    }
}

impl TypeTreeNode {
    /// An exact copy of the node.
    pub fn duplicate(&self) -> (r: TypeTreeNode)
        ensures
            r == *self,
    {
        TypeTreeNode {
            name: self.name.clone(),
            ty_name: self.ty_name.clone(),
            node: self.node,
        }
    }

    pub fn get_version(&self) -> (r: u16)
        ensures
            r == self.node.version,
    {
        self.node.version
    }

    pub fn get_level(&self) -> (r: u8)
        ensures
            r == self.node.level,
    {
        self.node.level
    }

    /// Bit 0 of the type flags marks an array node.
    pub fn is_array(&self) -> (r: bool)
        ensures
            r == spec_is_array(self.node),
    {
        self.node.type_flags & 1 > 0
    }

    pub fn get_byte_size(&self) -> (r: i32)
        ensures
            r == self.node.byte_size,
    {
        self.node.byte_size
    }

    pub fn get_index(&self) -> (r: i32)
        ensures
            r == self.node.index,
    {
        self.node.index
    }

    pub fn get_meta_flag(&self) -> (r: i32)
        ensures
            r == self.node.meta_flag,
    {
        self.node.meta_flag
    }

    /// Bit 0x4000 of the meta flag asks for four-byte alignment after the
    /// node's data.
    pub fn is_align(&self) -> (r: bool)
        ensures
            r == spec_is_align(self.node),
    {
        self.node.meta_flag & 0x4000 > 0
    }

    pub fn get_ref_type_hash(&self) -> (r: Option<u64>)
        ensures
            r == Some(self.node.ref_type_hash),
    {
        Some(self.node.ref_type_hash)
    }

    pub fn get_type(&self) -> (r: &String)
        ensures
            r == &self.ty_name,
    {
        &self.ty_name
    }

    pub fn get_name(&self) -> (r: &String)
        ensures
            r == &self.name,
    {
        &self.name
    }
}

/// True when the blob's type flags mark an array node.
pub open spec fn spec_is_array(b: TypeTreeNodeBlob) -> bool {
    b.type_flags & 1 > 0
}

/// True when the blob's meta flag asks for four-byte alignment.
pub open spec fn spec_is_align(b: TypeTreeNodeBlob) -> bool {
    b.meta_flag & 0x4000 > 0
}

/// The schema nodes of one resolved tree, as the decoder sees them.
pub open spec fn spec_resolved_nodes(t: TypeTreeV) -> Seq<TypeTreeNodeV> {
    Seq::new(
        t.blobs.len(),
        |i: int|
            TypeTreeNodeV {
                name: spec_buffer_string(t.string_buffer, t.blobs[i].name_str_offset as int),
                ty_name: spec_buffer_string(t.string_buffer, t.blobs[i].type_str_offset as int),
                node: t.blobs[i],
            },
    )
}

/// Resolves every node of a tree: recovers both strings of each blob and
/// checks they are UTF-8.
pub fn resolve_type_tree(t: &TypeTree) -> (r: Result<Vec<TypeTreeNode>, Error>)
    ensures
        r matches Ok(v) ==> v.deep_view() == spec_resolved_nodes(t@),
        r matches Err(e) ==> e == Error::InvalidUtf8 && exists|i: int|
            #![trigger spec_resolved_nodes(t@)[i]]
            0 <= i < t@.blobs.len() && (!vstd::utf8::valid_utf8(spec_resolved_nodes(t@)[i].name)
                || !vstd::utf8::valid_utf8(spec_resolved_nodes(t@)[i].ty_name)),
{
    let mut out: Vec<TypeTreeNode> = Vec::new();
    let n = t.type_tree_node_blobs.len();
    let mut i: usize = 0;
    while i < n
        invariant
            i <= n,
            n == t@.blobs.len(),
            out@.len() == i,
            forall|j: int| 0 <= j < i ==> #[trigger] out@[j]@ == spec_resolved_nodes(t@)[j],
        decreases n - i,
    {
        let blob = t.type_tree_node_blobs[i];
        let ty_name = match blob.get_type_str(&t.string_buffer) {
            Ok(s) => s,
            Err(e) => {
                proof {
                    assert(!vstd::utf8::valid_utf8(spec_resolved_nodes(t@)[i as int].ty_name));
                }
                return Err(e);
            },
        };
        let name = match blob.get_name_str(&t.string_buffer) {
            Ok(s) => s,
            Err(e) => {
                proof {
                    assert(!vstd::utf8::valid_utf8(spec_resolved_nodes(t@)[i as int].name));
                }
                return Err(e);
            },
        };
        out.push(TypeTreeNode { name, ty_name, node: blob });
        i += 1;
    }
    proof {
        assert(out.deep_view() =~= spec_resolved_nodes(t@));
    }
    Ok(out)
}

/// A class's decoding arguments: its class id and its resolved schema nodes.
#[derive(Debug, Clone)]
pub struct TypeTreeObjectBinReadClassArgs {
    pub class_id: i32,
    pub type_fields: Vec<TypeTreeNode>,
}

impl TypeTreeObjectBinReadClassArgs {
    pub fn new(class_id: i32, type_fields: Vec<TypeTreeNode>) -> (r: TypeTreeObjectBinReadClassArgs)
        ensures
            r.class_id == class_id,
            r.type_fields == type_fields,
    {
        TypeTreeObjectBinReadClassArgs { class_id, type_fields }
    }
}

/// A decoded object: the value tree, the class id of its schema, and the
/// id of the serialized file it was read from inside a registry (zero when
/// it was decoded outside one).
#[derive(Debug)]
pub struct TypeTreeObject {
    pub class_id: i32,
    pub serialized_file_id: i64,
    pub data: reader::ValueNode,
}

/// The 64-bit widening of an integer value variant, or `None` for any
/// other variant.
pub open spec fn spec_int_of(v: reader::SpecValue) -> Option<i64> {
    match v {
        reader::SpecValue::SInt8(x) => Some(x as i64),
        reader::SpecValue::SInt16(x) => Some(x as i64),
        reader::SpecValue::SInt32(x) => Some(x as i64),
        reader::SpecValue::SInt64(x) => Some(x),
        reader::SpecValue::UInt8(x) => Some(x as i64),
        reader::SpecValue::UInt16(x) => Some(x as i64),
        reader::SpecValue::UInt32(x) => Some(x as i64),
        reader::SpecValue::UInt64(x) => Some(x as i64),
        _ => None,
    }
}

impl TypeTreeObject {
    /// Resolves a slash-delimited field path, such as `/Base/m_Script`:
    /// the leading segment is empty, the next names the root node, and
    /// each later one names a field.
    pub fn get_value_by_path<'a>(&'a self, path: &str) -> (r: Result<&'a reader::ValueNode, Error>)
        ensures
            match reader::spec_path_lookup(self.data@, str8(path@)) {
                Some(sv) => r matches Ok(x) && x@ == sv,
                None => r matches Err(e) && e == Error::PathNotFound,
            },
    {
        let pb = path.as_bytes_vec();
        let segs = reader::split_path_from(&pb, 0);
        proof {
            assert(segs.deep_view().len() == segs@.len());
        }
        if segs.len() < 2 {
            return Err(Error::PathNotFound);
        }
        proof {
            assert(segs.deep_view()[0] == segs@[0]@);
            assert(segs.deep_view()[1] == segs@[1]@);
        }
        if segs[0].len() != 0 {
            return Err(Error::PathNotFound);
        }
        if !strutil::bytes_eq_str(&segs[1], self.data.field.name.as_str()) {
            return Err(Error::PathNotFound);
        }
        match reader::lookup_node(&self.data, &segs, 2) {
            Some(v) => Ok(v),
            None => Err(Error::PathNotFound),
        }
    }

    /// The string value at a field path.
    pub fn get_string_by_path(&self, path: &str) -> (r: Result<String, Error>)
        ensures
            match reader::spec_path_lookup(self.data@, str8(path@)) {
                Some(sv) => match sv.value {
                    reader::SpecValue::Str(b) => r matches Ok(x) && str8(x@) == b,
                    _ => r matches Err(e) && e == Error::WrongType,
                },
                None => r matches Err(e) && e == Error::PathNotFound,
            },
    {
        let v = match self.get_value_by_path(path) {
            Ok(v) => v,
            Err(e) => { return Err(e) },
        };
        match &v.value {
            reader::Value::Str(s) => Ok(s.clone()),
            _ => Err(Error::WrongType),
        }
    }

    /// The integer value at a field path, widened to 64 bits.
    pub fn get_int_by_path(&self, path: &str) -> (r: Result<i64, Error>)
        ensures
            match reader::spec_path_lookup(self.data@, str8(path@)) {
                Some(sv) => match spec_int_of(sv.value) {
                    Some(x) => r == Result::<i64, Error>::Ok(x),
                    None => r matches Err(e) && e == Error::WrongType,
                },
                None => r matches Err(e) && e == Error::PathNotFound,
            },
    {
        let v = match self.get_value_by_path(path) {
            Ok(v) => v,
            Err(e) => { return Err(e) },
        };
        match &v.value {
            reader::Value::SInt8(x) => Ok(*x as i64),
            reader::Value::SInt16(x) => Ok(*x as i64),
            reader::Value::SInt32(x) => Ok(*x as i64),
            reader::Value::SInt64(x) => Ok(*x),
            reader::Value::UInt8(x) => Ok(*x as i64),
            reader::Value::UInt16(x) => Ok(*x as i64),
            reader::Value::UInt32(x) => Ok(*x as i64),
            reader::Value::UInt64(x) => Ok(*x as i64),
            _ => Err(Error::WrongType),
        }
    }

    /// The boolean value at a field path.
    pub fn get_bool_by_path(&self, path: &str) -> (r: Result<bool, Error>)
        ensures
            match reader::spec_path_lookup(self.data@, str8(path@)) {
                Some(sv) => match sv.value {
                    reader::SpecValue::Bool(b) => r == Result::<bool, Error>::Ok(b),
                    _ => r matches Err(e) && e == Error::WrongType,
                },
                None => r matches Err(e) && e == Error::PathNotFound,
            },
    {
        let v = match self.get_value_by_path(path) {
            Ok(v) => v,
            Err(e) => { return Err(e) },
        };
        match &v.value {
            reader::Value::Bool(b) => Ok(*b),
            _ => Err(Error::WrongType),
        }
    }

    /// The file id and path id of the reference value at a field path.
    pub fn get_ref_by_path(&self, path: &str) -> (r: Result<(i64, i64), Error>)
        ensures
            match reader::spec_path_lookup(self.data@, str8(path@)) {
                Some(sv) => match sv.value {
                    reader::SpecValue::Ref(f, pid) => r == Result::<(i64, i64), Error>::Ok(
                        (f, pid),
                    ),
                    _ => r matches Err(e) && e == Error::WrongType,
                },
                None => r matches Err(e) && e == Error::PathNotFound,
            },
    {
        let v = match self.get_value_by_path(path) {
            Ok(v) => v,
            Err(e) => { return Err(e) },
        };
        match &v.value {
            reader::Value::Ref(f, pid) => Ok((*f, *pid)),
            _ => Err(Error::WrongType),
        }
    }
}

/// Reads a u16 with the position already checked in range.
fn read_u16_at(d: &Vec<u8>, p: usize, little: bool) -> (r: (u16, usize))
    requires
        raw::spec_has(d@, p as int, 2),
    ensures
        r.0 == raw::spec_u16_at(d@, p as int, little),
        r.1 == p + 2,
{
    match raw::read_u16(d, p, little) {
        Ok(v) => v,
        Err(_) => { proof { assert(false); } (0, 0) },
    }
}

/// Reads a u32 with the position already checked in range.
fn read_u32_at(d: &Vec<u8>, p: usize, little: bool) -> (r: (u32, usize))
    requires
        raw::spec_has(d@, p as int, 4),
    ensures
        r.0 == raw::spec_u32_at(d@, p as int, little),
        r.1 == p + 4,
{
    match raw::read_u32(d, p, little) {
        Ok(v) => v,
        Err(_) => { proof { assert(false); } (0, 0) },
    }
}

/// Reads an i32 with the position already checked in range.
fn read_i32_at(d: &Vec<u8>, p: usize, little: bool) -> (r: (i32, usize))
    requires
        raw::spec_has(d@, p as int, 4),
    ensures
        r.0 == raw::spec_i32_at(d@, p as int, little),
        r.1 == p + 4,
{
    match raw::read_i32(d, p, little) {
        Ok(v) => v,
        Err(_) => { proof { assert(false); } (0, 0) },
    }
}

} // verus!
