//! The generic object decoder: interprets a schema (a flat, level-tagged
//! node sequence) against a byte range and builds a navigable value tree.
//!
//! The decoding relation is stated once, as spec functions over the views
//! of the schema and the bytes; the executable decoder is proved to return
//! exactly what those functions describe.

use vstd::prelude::*;
use crate::error::Error;
use crate::raw;
use crate::strutil;
use crate::strutil::str8;
use crate::type_tree::{TypeTreeNode, TypeTreeNodeV, spec_is_align, spec_is_array};

verus! {

broadcast use vstd::std_specs::vec::group_vec_axioms;

/// The primitive value kinds a schema leaf can declare, plus `NotPrim` for
/// every other type name.  `Float` and `Double` carry the raw bit pattern
/// of the stored value.
#[derive(Debug, Clone, Copy, PartialEq, Eq, Structural)]
pub enum PrimKind {
    Bool,
    SInt8,
    UInt8,
    SInt16,
    UInt16,
    SInt32,
    UInt32,
    SInt64,
    UInt64,
    Float,
    Double,
    NotPrim,
}

/// Which primitive kind a type name declares.  Unsigned 8-bit covers
/// `char`; the C-style names are aliases of the fixed-width ones;
/// `Type*` and `FileSize` are stored as 32- and 64-bit unsigned values.
pub open spec fn spec_prim_kind(t: Seq<u8>) -> PrimKind {
    if t == str8("bool"@) {
        PrimKind::Bool
    } else if t == str8("SInt8"@) {
        PrimKind::SInt8
    } else if t == str8("UInt8"@) || t == str8("char"@) {
        PrimKind::UInt8
    } else if t == str8("SInt16"@) || t == str8("short"@) {
        PrimKind::SInt16
    } else if t == str8("UInt16"@) || t == str8("unsigned short"@) {
        PrimKind::UInt16
    } else if t == str8("SInt32"@) || t == str8("int"@) {
        PrimKind::SInt32
    } else if t == str8("UInt32"@) || t == str8("unsigned int"@) || t == str8("Type*"@) {
        PrimKind::UInt32
    } else if t == str8("SInt64"@) || t == str8("long long"@) {
        PrimKind::SInt64
    } else if t == str8("UInt64"@) || t == str8("unsigned long long"@) || t == str8("FileSize"@) {
        PrimKind::UInt64
    } else if t == str8("float"@) {
        PrimKind::Float
    } else if t == str8("double"@) {
        PrimKind::Double
    } else {
        PrimKind::NotPrim
    }
}

/// Classifies a type name.
pub fn prim_kind_of(t: &str) -> (k: PrimKind)
    ensures
        k == spec_prim_kind(str8(t@)),
{
    if strutil::str_bytes_eq(t, "bool") {
        PrimKind::Bool
    } else if strutil::str_bytes_eq(t, "SInt8") {
        PrimKind::SInt8
    } else if strutil::str_bytes_eq(t, "UInt8") || strutil::str_bytes_eq(t, "char") {
        PrimKind::UInt8
    } else if strutil::str_bytes_eq(t, "SInt16") || strutil::str_bytes_eq(t, "short") {
        PrimKind::SInt16
    } else if strutil::str_bytes_eq(t, "UInt16") || strutil::str_bytes_eq(t, "unsigned short") {
        PrimKind::UInt16
    } else if strutil::str_bytes_eq(t, "SInt32") || strutil::str_bytes_eq(t, "int") {
        PrimKind::SInt32
    } else if strutil::str_bytes_eq(t, "UInt32") || strutil::str_bytes_eq(t, "unsigned int")
        || strutil::str_bytes_eq(t, "Type*") {
        PrimKind::UInt32
    } else if strutil::str_bytes_eq(t, "SInt64") || strutil::str_bytes_eq(t, "long long") {
        PrimKind::SInt64
    } else if strutil::str_bytes_eq(t, "UInt64") || strutil::str_bytes_eq(t, "unsigned long long")
        || strutil::str_bytes_eq(t, "FileSize") {
        PrimKind::UInt64
    } else if strutil::str_bytes_eq(t, "float") {
        PrimKind::Float
    } else if strutil::str_bytes_eq(t, "double") {
        PrimKind::Double
    } else {
        PrimKind::NotPrim
    }
}

/// Byte width of a primitive kind.
pub open spec fn spec_prim_width(k: PrimKind) -> int {
    match k {
        PrimKind::Bool => 1,
        PrimKind::SInt8 => 1,
        PrimKind::UInt8 => 1,
        PrimKind::SInt16 => 2,
        PrimKind::UInt16 => 2,
        PrimKind::SInt32 => 4,
        PrimKind::UInt32 => 4,
        PrimKind::SInt64 => 8,
        PrimKind::UInt64 => 8,
        PrimKind::Float => 4,
        PrimKind::Double => 8,
        PrimKind::NotPrim => 0,
    }
}

/// A decoded value: one variant per primitive kind, a UTF-8 string, an
/// ordered element sequence, an ordered field mapping (field names come
/// from each child's schema node, in schema order), or a decoded object
/// reference `Ref(file_id, path_id)`.  `Float` and `Double` hold the raw
/// IEEE-754 bit patterns.
#[derive(Debug)]
pub enum Value {
    Bool(bool),
    SInt8(i8),
    SInt16(i16),
    SInt32(i32),
    SInt64(i64),
    UInt8(u8),
    UInt16(u16),
    UInt32(u32),
    UInt64(u64),
    Float(u32),
    Double(u64),
    Str(String),
    Array(Vec<ValueNode>),
    Fields(Vec<ValueNode>),
    Ref(i64, i64),
}

/// One node of a decoded value tree: the schema node it came from and the
/// value read for it.
#[derive(Debug)]
pub struct ValueNode {
    pub field: TypeTreeNode,
    pub value: Value,
}

/// Spec-level image of a [`Value`]: strings as their UTF-8 bytes,
/// sequences as `Seq`.
pub ghost enum SpecValue {
    Bool(bool),
    SInt8(i8),
    SInt16(i16),
    SInt32(i32),
    SInt64(i64),
    UInt8(u8),
    UInt16(u16),
    UInt32(u32),
    UInt64(u64),
    Float(u32),
    Double(u64),
    Str(Seq<u8>),
    Array(Seq<SpecValueNode>),
    Fields(Seq<SpecValueNode>),
    Ref(i64, i64),
}

/// Spec-level image of a [`ValueNode`].
pub ghost struct SpecValueNode {
    pub field: TypeTreeNodeV,
    pub value: SpecValue,
}

/// The spec-level image of a decoded value.
pub open spec fn spec_value_view(v: Value) -> SpecValue
    decreases v,
{
    match v {
        Value::Bool(b) => SpecValue::Bool(b),
        Value::SInt8(x) => SpecValue::SInt8(x),
        Value::SInt16(x) => SpecValue::SInt16(x),
        Value::SInt32(x) => SpecValue::SInt32(x),
        Value::SInt64(x) => SpecValue::SInt64(x),
        Value::UInt8(x) => SpecValue::UInt8(x),
        Value::UInt16(x) => SpecValue::UInt16(x),
        Value::UInt32(x) => SpecValue::UInt32(x),
        Value::UInt64(x) => SpecValue::UInt64(x),
        Value::Float(x) => SpecValue::Float(x),
        Value::Double(x) => SpecValue::Double(x),
        Value::Str(s) => SpecValue::Str(str8(s@)),
        Value::Array(items) => SpecValue::Array(
            Seq::new(
                items@.len(),
                |i: int|
                    if 0 <= i < items@.len() {
                        spec_vnode_view(items@[i])
                    } else {
                        vstd::pervasive::arbitrary()
                    },
            ),
        ),
        Value::Fields(items) => SpecValue::Fields(
            Seq::new(
                items@.len(),
                |i: int|
                    if 0 <= i < items@.len() {
                        spec_vnode_view(items@[i])
                    } else {
                        vstd::pervasive::arbitrary()
                    },
            ),
        ),
        Value::Ref(f, p) => SpecValue::Ref(f, p),
    }
}

/// The spec-level image of a decoded value node.
pub open spec fn spec_vnode_view(v: ValueNode) -> SpecValueNode
    decreases v,
{
    SpecValueNode { field: v.field@, value: spec_value_view(v.value) }
}

impl View for ValueNode {
    type V = SpecValueNode;

    open spec fn view(&self) -> SpecValueNode {
        spec_vnode_view(*self)
    }
}

impl View for Value {
    type V = SpecValue;

    open spec fn view(&self) -> SpecValue {
        spec_value_view(*self)
    }
}

impl DeepView for ValueNode {
    type V = SpecValueNode;

    open spec fn deep_view(&self) -> SpecValueNode {
        spec_vnode_view(*self)
    }
}

/// First index at or after `j` whose node level is at most `lvl`, or the
/// number of nodes.  Scanning from just past a node with its level finds
/// the end of that node's subtree.
pub open spec fn spec_subtree_end(nodes: Seq<TypeTreeNodeV>, lvl: int, j: int) -> int
    decreases nodes.len() - j,
    when j >= 0
{
    if j >= nodes.len() {
        nodes.len() as int
    } else if nodes[j].node.level <= lvl {
        j
    } else {
        spec_subtree_end(nodes, lvl, j + 1)
    }
}

/// The subtree scan stays between its start and the end of the node list,
/// every node it skips has a deeper level, and it stops at a level at most
/// `lvl` when it stops early.
pub proof fn lemma_subtree_end_bounds(nodes: Seq<TypeTreeNodeV>, lvl: int, j: int)
    requires
        0 <= j <= nodes.len(),
    ensures
        j <= spec_subtree_end(nodes, lvl, j) <= nodes.len(),
        forall|k: int| j <= k < spec_subtree_end(nodes, lvl, j) ==> nodes[k].node.level > lvl,
        spec_subtree_end(nodes, lvl, j) < nodes.len() ==> nodes[spec_subtree_end(
            nodes,
            lvl,
            j,
        )].node.level <= lvl,
    decreases nodes.len() - j,
{
    if j < nodes.len() && nodes[j].node.level > lvl {
        lemma_subtree_end_bounds(nodes, lvl, j + 1);
    }
}

/// True when some node in `[i, e)` asks for alignment.
pub open spec fn spec_any_align(nodes: Seq<TypeTreeNodeV>, i: int, e: int) -> bool {
    exists|j: int| i <= j < e && spec_is_align(#[trigger] nodes[j].node)
}

/// The position after the optional trailing alignment of a node: `p`
/// itself without the flag, the next multiple of four with it.  `None`
/// when the aligned position lies past the end of the data.
pub open spec fn spec_post_align(d: Seq<u8>, p: int, align: bool) -> Option<int> {
    if !align {
        Some(p)
    } else if raw::spec_align4(p) <= d.len() {
        Some(raw::spec_align4(p))
    } else {
        None
    }
}

/// The integer value of a primitive leaf widened to 64 bits (signed kinds
/// sign-extended, `UInt64` reinterpreted), or `None` for non-integer kinds.
pub open spec fn spec_int_leaf(k: PrimKind, d: Seq<u8>, p: int, little: bool) -> Option<i64> {
    match k {
        PrimKind::SInt8 => Some(d[p] as i8 as i64),
        PrimKind::UInt8 => Some(d[p] as i64),
        PrimKind::SInt16 => Some(raw::spec_u16_at(d, p, little) as i16 as i64),
        PrimKind::UInt16 => Some(raw::spec_u16_at(d, p, little) as i64),
        PrimKind::SInt32 => Some(raw::spec_i32_at(d, p, little) as i64),
        PrimKind::UInt32 => Some(raw::spec_u32_at(d, p, little) as i64),
        PrimKind::SInt64 => Some(raw::spec_i64_at(d, p, little)),
        PrimKind::UInt64 => Some(raw::spec_u64_at(d, p, little) as i64),
        _ => None,
    }
}

/// The primitive value of kind `k` stored at `p`.
pub open spec fn spec_prim_value(k: PrimKind, d: Seq<u8>, p: int, little: bool) -> SpecValue {
    match k {
        PrimKind::Bool => SpecValue::Bool(d[p] != 0),
        PrimKind::SInt8 => SpecValue::SInt8(d[p] as i8),
        PrimKind::UInt8 => SpecValue::UInt8(d[p]),
        PrimKind::SInt16 => SpecValue::SInt16(raw::spec_u16_at(d, p, little) as i16),
        PrimKind::UInt16 => SpecValue::UInt16(raw::spec_u16_at(d, p, little)),
        PrimKind::SInt32 => SpecValue::SInt32(raw::spec_i32_at(d, p, little)),
        PrimKind::UInt32 => SpecValue::UInt32(raw::spec_u32_at(d, p, little)),
        PrimKind::SInt64 => SpecValue::SInt64(raw::spec_i64_at(d, p, little)),
        PrimKind::UInt64 => SpecValue::UInt64(raw::spec_u64_at(d, p, little)),
        PrimKind::Float => SpecValue::Float(raw::spec_u32_at(d, p, little)),
        PrimKind::Double => SpecValue::Double(raw::spec_u64_at(d, p, little)),
        PrimKind::NotPrim => SpecValue::Bool(false),
    }
}

/// True when a primitive kind is one of the eight integer kinds.
pub open spec fn spec_int_kind(k: PrimKind) -> bool {
    !(k is Bool || k is Float || k is Double || k is NotPrim)
}

/// True when the subtree `[i, e)` is shaped like an object reference:
/// a node whose type name starts with `PPtr<`, with exactly two childless
/// children, integer leaves named `m_FileID` and `m_PathID`.
pub open spec fn spec_is_pptr_shape(nodes: Seq<TypeTreeNodeV>, i: int, e: int) -> bool {
    &&& str8("PPtr<"@).is_prefix_of(nodes[i].ty_name)
    &&& e == i + 3
    &&& e <= nodes.len()
    &&& nodes[i + 1].name == str8("m_FileID"@)
    &&& nodes[i + 2].name == str8("m_PathID"@)
    &&& spec_subtree_end(nodes, nodes[i + 1].node.level as int, i + 2) == i + 2
    &&& spec_int_kind(spec_prim_kind(nodes[i + 1].ty_name))
    &&& spec_int_kind(spec_prim_kind(nodes[i + 2].ty_name))
}

/// Decodes the node at `i`, whose descendants lie in `(i, e)`, from
/// position `p`.  Returns the decoded node and the position after it, or
/// `None` when the bytes or the schema do not fit.
pub open spec fn spec_decode_node(
    nodes: Seq<TypeTreeNodeV>,
    i: int,
    e: int,
    d: Seq<u8>,
    p: int,
    little: bool,
) -> Option<(SpecValueNode, int)>
    decreases e - i, 1int, 0int,
    when 0 <= i < e <= nodes.len() && 0 <= p
    via spec_decode_node_dec
{
    let node = nodes[i];
    let k = spec_prim_kind(node.ty_name);
    if node.ty_name == str8("string"@) {
        // A string is stored as a 32-bit length and the UTF-8 bytes; its
        // schema children (the byte array) are not decoded one by one, so
        // an alignment flag anywhere below the node is honoured here.
        if !raw::spec_has(d, p, 4) {
            None
        } else {
            let n = raw::spec_i32_at(d, p, little) as int;
            if n < 0 || !raw::spec_has(d, p + 4, n) {
                None
            } else if !vstd::utf8::valid_utf8(d.subrange(p + 4, p + 4 + n)) {
                None
            } else {
                match spec_post_align(
                    d,
                    p + 4 + n,
                    spec_is_align(node.node) || spec_any_align(nodes, i + 1, e),
                ) {
                    Option::Some(q) => Option::Some(
                        (
                            SpecValueNode {
                                field: node,
                                value: SpecValue::Str(d.subrange(p + 4, p + 4 + n)),
                            },
                            q,
                        ),
                    ),
                    Option::None => Option::None,
                }
            }
        }
    } else if spec_is_array(node.node) {
        // An array node has a size child and a data child: a 32-bit count,
        // then that many repetitions of the data child's subtree.
        let c1 = if spec_subtree_end(nodes, nodes[i + 1].node.level as int, i + 2) <= e {
            spec_subtree_end(nodes, nodes[i + 1].node.level as int, i + 2)
        } else {
            e
        };
        if i + 1 >= e || c1 >= e {
            None
        } else {
            let c1e = if spec_subtree_end(nodes, nodes[c1].node.level as int, c1 + 1) <= e {
                spec_subtree_end(nodes, nodes[c1].node.level as int, c1 + 1)
            } else {
                e
            };
            if !raw::spec_has(d, p, 4) {
                None
            } else {
                let n = raw::spec_i32_at(d, p, little) as int;
                if n < 0 {
                    None
                } else {
                    match spec_decode_array(nodes, c1, c1e, n, d, p + 4, little) {
                        Option::None => Option::None,
                        Option::Some((items, q)) => {
                            match spec_post_align(d, q, spec_is_align(node.node)) {
                                Option::Some(q2) => Option::Some(
                                    (
                                        SpecValueNode {
                                            field: node,
                                            value: SpecValue::Array(items),
                                        },
                                        q2,
                                    ),
                                ),
                                Option::None => Option::None,
                            }
                        },
                    }
                }
            }
        }
    } else if k != PrimKind::NotPrim {
        // A primitive leaf: its declared byte size must match the kind's
        // intrinsic width.
        if node.node.byte_size != spec_prim_width(k) {
            None
        } else if !raw::spec_has(d, p, spec_prim_width(k)) {
            None
        } else {
            match spec_post_align(d, p + spec_prim_width(k), spec_is_align(node.node)) {
                Option::Some(q) => Option::Some(
                    (SpecValueNode { field: node, value: spec_prim_value(k, d, p, little) }, q),
                ),
                Option::None => Option::None,
            }
        }
    } else if spec_is_pptr_shape(nodes, i, e) {
        // A reference decodes directly into its file id and path id.
        let k0 = spec_prim_kind(nodes[i + 1].ty_name);
        let k1 = spec_prim_kind(nodes[i + 2].ty_name);
        let w0 = spec_prim_width(k0);
        let w1 = spec_prim_width(k1);
        if !raw::spec_has(d, p, w0 + w1) {
            None
        } else {
            match (
                spec_int_leaf(k0, d, p, little),
                spec_int_leaf(k1, d, p + w0, little),
            ) {
                (Option::Some(f), Option::Some(pid)) => {
                    match spec_post_align(d, p + w0 + w1, spec_is_align(node.node)) {
                        Option::Some(q) => Option::Some(
                            (SpecValueNode { field: node, value: SpecValue::Ref(f, pid) }, q),
                        ),
                        Option::None => Option::None,
                    }
                },
                _ => None,
            }
        }
    } else if i + 1 < e {
        // A structure: each child in schema order becomes one field.
        match spec_decode_children(nodes, i + 1, e, d, p, little) {
            Option::None => Option::None,
            Option::Some((items, q)) => {
                match spec_post_align(d, q, spec_is_align(node.node)) {
                    Option::Some(q2) => Option::Some(
                        (SpecValueNode { field: node, value: SpecValue::Fields(items) }, q2),
                    ),
                    Option::None => Option::None,
                }
            },
        }
    } else {
        // A childless node of an unknown type name cannot be decoded.
        None
    }
}

/// Decodes the run of sibling subtrees that starts at `j` and ends at `e`.
pub open spec fn spec_decode_children(
    nodes: Seq<TypeTreeNodeV>,
    j: int,
    e: int,
    d: Seq<u8>,
    p: int,
    little: bool,
) -> Option<(Seq<SpecValueNode>, int)>
    decreases e - j, 2int, 0int,
    when 0 <= j && j <= e <= nodes.len() && 0 <= p
    via spec_decode_children_dec
{
    if j >= e {
        Some((Seq::empty(), p))
    } else {
        let ce = if spec_subtree_end(nodes, nodes[j].node.level as int, j + 1) <= e {
            spec_subtree_end(nodes, nodes[j].node.level as int, j + 1)
        } else {
            e
        };
        match spec_decode_node(nodes, j, ce, d, p, little) {
            Option::None => Option::None,
            Option::Some((v, q)) => {
                if q < 0 {
                    None
                } else {
                    match spec_decode_children(nodes, ce, e, d, q, little) {
                        Option::None => Option::None,
                        Option::Some((rest, q2)) => Option::Some((seq![v] + rest, q2)),
                    }
                }
            },
        }
    }
}

#[via_fn]
proof fn spec_decode_node_dec(
    nodes: Seq<TypeTreeNodeV>,
    i: int,
    e: int,
    d: Seq<u8>,
    p: int,
    little: bool,
) {
    if 0 <= i < e <= nodes.len() && i + 2 <= nodes.len() {
        lemma_subtree_end_bounds(nodes, nodes[i + 1].node.level as int, i + 2);
        let c1 = if spec_subtree_end(nodes, nodes[i + 1].node.level as int, i + 2) <= e {
            spec_subtree_end(nodes, nodes[i + 1].node.level as int, i + 2)
        } else {
            e
        };
        if 0 <= c1 < nodes.len() {
            lemma_subtree_end_bounds(nodes, nodes[c1].node.level as int, c1 + 1);
        }
    }
}

#[via_fn]
proof fn spec_decode_children_dec(
    nodes: Seq<TypeTreeNodeV>,
    j: int,
    e: int,
    d: Seq<u8>,
    p: int,
    little: bool,
) {
    if 0 <= j < nodes.len() {
        lemma_subtree_end_bounds(nodes, nodes[j].node.level as int, j + 1);
    }
}

/// Decodes `n` repetitions of the element subtree `[i, e)`.
pub open spec fn spec_decode_array(
    nodes: Seq<TypeTreeNodeV>,
    i: int,
    e: int,
    n: int,
    d: Seq<u8>,
    p: int,
    little: bool,
) -> Option<(Seq<SpecValueNode>, int)>
    decreases e - i, 2int, n,
    when 0 <= i < e <= nodes.len() && 0 <= p && 0 <= n
{
    if n == 0 {
        Some((Seq::empty(), p))
    } else {
        match spec_decode_node(nodes, i, e, d, p, little) {
            Option::None => Option::None,
            Option::Some((v, q)) => {
                if q < 0 {
                    None
                } else {
                    match spec_decode_array(nodes, i, e, n - 1, d, q, little) {
                        Option::None => Option::None,
                        Option::Some((rest, q2)) => Option::Some((seq![v] + rest, q2)),
                    }
                }
            },
        }
    }
}

/// Decodes a whole object: the root node of the schema against the whole
/// byte range, starting at position zero.
pub open spec fn spec_decode_object(
    nodes: Seq<TypeTreeNodeV>,
    d: Seq<u8>,
    little: bool,
) -> Option<(SpecValueNode, int)> {
    if nodes.len() == 0 {
        None
    } else {
        let e = spec_subtree_end(nodes, nodes[0].node.level as int, 1);
        match spec_decode_node(nodes, 0, e, d, 0, little) {
            Option::None => Option::None,
            Option::Some(r) => Option::Some(r),
        }
    }
}


/// Finds the end of the subtree that starts just before `j`: the first
/// index at or after `j` whose level is at most `lvl`.
pub fn subtree_end(nodes: &Vec<TypeTreeNode>, lvl: u8, j: usize) -> (r: usize)
    requires
        j <= nodes@.len(),
    ensures
        r == spec_subtree_end(nodes.deep_view(), lvl as int, j as int),
        j <= r <= nodes@.len(),
    decreases nodes@.len() - j,
{
    proof {
        assert(nodes.deep_view().len() == nodes@.len());
    }
    if j >= nodes.len() {
        nodes.len()
    } else if nodes[j].node.level <= lvl {
        proof {
            assert(nodes.deep_view()[j as int] == nodes@[j as int]@);
        }
        j
    } else {
        proof {
            assert(nodes.deep_view()[j as int] == nodes@[j as int]@);
        }
        subtree_end(nodes, lvl, j + 1)
    }
}

/// True when some node in `[i, e)` asks for alignment.
pub fn any_align(nodes: &Vec<TypeTreeNode>, i: usize, e: usize) -> (r: bool)
    requires
        i <= e <= nodes@.len(),
    ensures
        r == spec_any_align(nodes.deep_view(), i as int, e as int),
{
    let mut j: usize = i;
    while j < e
        invariant
            i <= j <= e <= nodes@.len(),
            nodes.deep_view().len() == nodes@.len(),
            forall|k: int| i <= k < j ==> !spec_is_align(#[trigger] nodes.deep_view()[k].node),
        decreases e - j,
    {
        proof {
            assert(nodes.deep_view()[j as int] == nodes@[j as int]@);
        }
        if nodes[j].is_align() {
            proof {
                assert(spec_is_align(nodes.deep_view()[j as int].node));
            }
            return true;
        }
        j += 1;
    }
    false
}

/// Applies a node's optional trailing alignment to the position.
pub fn post_align(d: &Vec<u8>, p: usize, align: bool) -> (r: Result<usize, Error>)
    requires
        p <= d@.len(),
    ensures
        match spec_post_align(d@, p as int, align) {
            Some(q) => r matches Ok(x) && x == q,
            None => r matches Err(e) && e == Error::UnexpectedEof,
        },
{
    if !align {
        return Ok(p);
    }
    let rem = p % 4;
    if rem == 0 {
        return Ok(p);
    }
    let pad = 4 - rem;
    if pad <= d.len() - p {
        Ok(p + pad)
    } else {
        Err(Error::UnexpectedEof)
    }
}

/// Byte width of a primitive kind.
pub fn prim_width(k: PrimKind) -> (w: usize)
    ensures
        w == spec_prim_width(k),
{
    match k {
        PrimKind::Bool => 1,
        PrimKind::SInt8 => 1,
        PrimKind::UInt8 => 1,
        PrimKind::SInt16 => 2,
        PrimKind::UInt16 => 2,
        PrimKind::SInt32 => 4,
        PrimKind::UInt32 => 4,
        PrimKind::SInt64 => 8,
        PrimKind::UInt64 => 8,
        PrimKind::Float => 4,
        PrimKind::Double => 8,
        PrimKind::NotPrim => 0,
    }
}

/// True when the kind is one of the integer kinds.
pub fn int_kind(k: PrimKind) -> (r: bool)
    ensures
        r == spec_int_kind(k),
{
    match k {
        PrimKind::Bool => false,
        PrimKind::Float => false,
        PrimKind::Double => false,
        PrimKind::NotPrim => false,
        _ => true,
    }
}

/// Reads the primitive value of kind `k` at `p`.
#[verifier::rlimit(50)]
fn read_prim(k: PrimKind, d: &Vec<u8>, p: usize, little: bool) -> (r: Result<(Value, usize), Error>)
    requires
        k != PrimKind::NotPrim,
    ensures
        raw::spec_has(d@, p as int, spec_prim_width(k)) ==> (r matches Ok(v) && spec_value_view(v.0)
            == spec_prim_value(k, d@, p as int, little) && v.1 == p + spec_prim_width(k)),
        !raw::spec_has(d@, p as int, spec_prim_width(k)) ==> r matches Err(e),
{
    match k {
        PrimKind::Bool => {
            match raw::read_u8(d, p) {
                Ok((b, q)) => Ok((Value::Bool(b != 0), q)),
                Err(e) => Err(e),
            }
        },
        PrimKind::SInt8 => {
            match raw::read_u8(d, p) {
                Ok((b, q)) => Ok((Value::SInt8(b as i8), q)),
                Err(e) => Err(e),
            }
        },
        PrimKind::UInt8 => {
            match raw::read_u8(d, p) {
                Ok((b, q)) => Ok((Value::UInt8(b), q)),
                Err(e) => Err(e),
            }
        },
        PrimKind::SInt16 => {
            match raw::read_u16(d, p, little) {
                Ok((v, q)) => Ok((Value::SInt16(v as i16), q)),
                Err(e) => Err(e),
            }
        },
        PrimKind::UInt16 => {
            match raw::read_u16(d, p, little) {
                Ok((v, q)) => Ok((Value::UInt16(v), q)),
                Err(e) => Err(e),
            }
        },
        PrimKind::SInt32 => {
            match raw::read_i32(d, p, little) {
                Ok((v, q)) => Ok((Value::SInt32(v), q)),
                Err(e) => Err(e),
            }
        },
        PrimKind::UInt32 => {
            match raw::read_u32(d, p, little) {
                Ok((v, q)) => Ok((Value::UInt32(v), q)),
                Err(e) => Err(e),
            }
        },
        PrimKind::SInt64 => {
            match raw::read_i64(d, p, little) {
                Ok((v, q)) => Ok((Value::SInt64(v), q)),
                Err(e) => Err(e),
            }
        },
        PrimKind::UInt64 => {
            match raw::read_u64(d, p, little) {
                Ok((v, q)) => Ok((Value::UInt64(v), q)),
                Err(e) => Err(e),
            }
        },
        PrimKind::Float => {
            match raw::read_u32(d, p, little) {
                Ok((v, q)) => Ok((Value::Float(v), q)),
                Err(e) => Err(e),
            }
        },
        PrimKind::Double => {
            match raw::read_u64(d, p, little) {
                Ok((v, q)) => Ok((Value::Double(v), q)),
                Err(e) => Err(e),
            }
        },
        PrimKind::NotPrim => Err(Error::WrongType),
    }
}

/// Reads an integer leaf of kind `k` at `p`, widened to 64 bits.
#[verifier::rlimit(50)]
fn read_int_leaf(k: PrimKind, d: &Vec<u8>, p: usize, little: bool) -> (r: Result<
    (i64, usize),
    Error,
>)
    requires
        spec_int_kind(k),
    ensures
        raw::spec_has(d@, p as int, spec_prim_width(k)) ==> (r matches Ok(v) && Some(v.0)
            == spec_int_leaf(k, d@, p as int, little) && v.1 == p + spec_prim_width(k)),
        !raw::spec_has(d@, p as int, spec_prim_width(k)) ==> r matches Err(e),
{
    match k {
        PrimKind::SInt8 => {
            match raw::read_u8(d, p) {
                Ok((b, q)) => Ok((b as i8 as i64, q)),
                Err(e) => Err(e),
            }
        },
        PrimKind::UInt8 => {
            match raw::read_u8(d, p) {
                Ok((b, q)) => Ok((b as i64, q)),
                Err(e) => Err(e),
            }
        },
        PrimKind::SInt16 => {
            match raw::read_u16(d, p, little) {
                Ok((v, q)) => Ok((v as i16 as i64, q)),
                Err(e) => Err(e),
            }
        },
        PrimKind::UInt16 => {
            match raw::read_u16(d, p, little) {
                Ok((v, q)) => Ok((v as i64, q)),
                Err(e) => Err(e),
            }
        },
        PrimKind::SInt32 => {
            match raw::read_i32(d, p, little) {
                Ok((v, q)) => Ok((v as i64, q)),
                Err(e) => Err(e),
            }
        },
        PrimKind::UInt32 => {
            match raw::read_u32(d, p, little) {
                Ok((v, q)) => Ok((v as i64, q)),
                Err(e) => Err(e),
            }
        },
        PrimKind::SInt64 => {
            match raw::read_i64(d, p, little) {
                Ok((v, q)) => Ok((v, q)),
                Err(e) => Err(e),
            }
        },
        _ => {
            match raw::read_u64(d, p, little) {
                Ok((v, q)) => Ok((v as i64, q)),
                Err(e) => Err(e),
            }
        },
    }
}

/// True when the subtree `[i, e)` is shaped like an object reference.
fn is_pptr_shape(nodes: &Vec<TypeTreeNode>, i: usize, e: usize) -> (r: bool)
    requires
        i < e <= nodes@.len(),
    ensures
        r == spec_is_pptr_shape(nodes.deep_view(), i as int, e as int),
{
    proof {
        assert(nodes.deep_view().len() == nodes@.len());
        assert(nodes.deep_view()[i as int] == nodes@[i as int]@);
    }
    if !strutil::str_starts_with(nodes[i].ty_name.as_str(), "PPtr<") {
        return false;
    }
    if e - i != 3 {
        return false;
    }
    proof {
        assert(nodes.deep_view()[i + 1] == nodes@[i + 1]@);
        assert(nodes.deep_view()[i + 2] == nodes@[i + 2]@);
    }
    if !strutil::str_bytes_eq(nodes[i + 1].name.as_str(), "m_FileID") {
        return false;
    }
    if !strutil::str_bytes_eq(nodes[i + 2].name.as_str(), "m_PathID") {
        return false;
    }
    let fid_end = subtree_end(nodes, nodes[i + 1].node.level, i + 2);
    if fid_end != i + 2 {
        return false;
    }
    let k0 = prim_kind_of(nodes[i + 1].ty_name.as_str());
    let k1 = prim_kind_of(nodes[i + 2].ty_name.as_str());
    int_kind(k0) && int_kind(k1)
}

/// Decodes the node at `i`, whose descendants lie in `(i, e)`, from
/// position `p` of `d`.  Returns the decoded node and the position after
/// it; fails exactly where the decoding relation is undefined.
#[verifier::rlimit(100)]
pub fn decode_node(
    nodes: &Vec<TypeTreeNode>,
    i: usize,
    e: usize,
    d: &Vec<u8>,
    p: usize,
    little: bool,
) -> (r: Result<(ValueNode, usize), Error>)
    requires
        i < e <= nodes@.len(),
        p <= d@.len(),
    ensures
        match spec_decode_node(nodes.deep_view(), i as int, e as int, d@, p as int, little) {
            Some(v) => r matches Ok(x) && x.0@ == v.0 && x.1 == v.1 && x.1 <= d@.len(),
            None => r.is_err(),
        },
    decreases e - i, 1int, 0int,
{
    proof {
        assert(nodes.deep_view().len() == nodes@.len());
        assert(nodes.deep_view()[i as int] == nodes@[i as int]@);
    }
    let ghost ndv = nodes.deep_view();
    let node = &nodes[i];
    let k = prim_kind_of(node.ty_name.as_str());
    if strutil::str_bytes_eq(node.ty_name.as_str(), "string") {
        let (n32, p1) = match raw::read_i32(d, p, little) {
            Ok(v) => v,
            Err(er) => { return Err(er) },
        };
        if n32 < 0 {
            return Err(Error::InvalidValue);
        }
        let (bytes, p2) = match raw::read_bytes(d, p1, n32 as usize) {
            Ok(v) => v,
            Err(er) => { return Err(er) },
        };
        let sv = match strutil::utf8_to_string(&bytes) {
            Ok(v) => v,
            Err(er) => { return Err(er) },
        };
        let al = node.is_align() || any_align(nodes, i + 1, e);
        let q = match post_align(d, p2, al) {
            Ok(v) => v,
            Err(er) => { return Err(er) },
        };
        Ok((ValueNode { field: node.duplicate(), value: Value::Str(sv) }, q))
    } else if node.is_array() {
        if i + 1 >= e {
            return Err(Error::MalformedSchema);
        }
        proof {
            assert(nodes.deep_view()[i + 1] == nodes@[i + 1]@);
        }
        let c1s = subtree_end(nodes, nodes[i + 1].node.level, i + 2);
        let c1 = if c1s <= e {
            c1s
        } else {
            e
        };
        if c1 >= e {
            return Err(Error::MalformedSchema);
        }
        proof {
            lemma_subtree_end_bounds(ndv, ndv[i + 1].node.level as int, i + 2);
            assert(nodes.deep_view()[c1 as int] == nodes@[c1 as int]@);
        }
        let c1es = subtree_end(nodes, nodes[c1].node.level, c1 + 1);
        let c1e = if c1es <= e {
            c1es
        } else {
            e
        };
        proof {
            lemma_subtree_end_bounds(ndv, ndv[c1 as int].node.level as int, c1 + 1);
        }
        let (n32, p1) = match raw::read_i32(d, p, little) {
            Ok(v) => v,
            Err(er) => { return Err(er) },
        };
        if n32 < 0 {
            return Err(Error::InvalidValue);
        }
        let (items, q) = match decode_array(nodes, c1, c1e, n32 as u32, d, p1, little) {
            Ok(v) => v,
            Err(er) => { return Err(er) },
        };
        let q2 = match post_align(d, q, node.is_align()) {
            Ok(v) => v,
            Err(er) => { return Err(er) },
        };
        proof {
            assert(spec_value_view(Value::Array(items))->Array_0 =~= items.deep_view());
        }
        Ok((ValueNode { field: node.duplicate(), value: Value::Array(items) }, q2))
    } else if k != PrimKind::NotPrim {
        let w = prim_width(k);
        let bs = node.get_byte_size();
        if !(bs >= 0 && bs as usize == w) {
            return Err(Error::MalformedSchema);
        }
        let (v, p1) = match read_prim(k, d, p, little) {
            Ok(v) => v,
            Err(er) => { return Err(er) },
        };
        let q = match post_align(d, p1, node.is_align()) {
            Ok(v) => v,
            Err(er) => { return Err(er) },
        };
        Ok((ValueNode { field: node.duplicate(), value: v }, q))
    } else if is_pptr_shape(nodes, i, e) {
        proof {
            assert(nodes.deep_view()[i + 1] == nodes@[i + 1]@);
            assert(nodes.deep_view()[i + 2] == nodes@[i + 2]@);
        }
        let k0 = prim_kind_of(nodes[i + 1].ty_name.as_str());
        let k1 = prim_kind_of(nodes[i + 2].ty_name.as_str());
        let (fid, p1) = match read_int_leaf(k0, d, p, little) {
            Ok(v) => v,
            Err(er) => { return Err(er) },
        };
        let (pid, p2) = match read_int_leaf(k1, d, p1, little) {
            Ok(v) => v,
            Err(er) => { return Err(er) },
        };
        let q = match post_align(d, p2, node.is_align()) {
            Ok(v) => v,
            Err(er) => { return Err(er) },
        };
        Ok((ValueNode { field: node.duplicate(), value: Value::Ref(fid, pid) }, q))
    } else if i + 1 < e {
        let (items, q) = match decode_children(nodes, i + 1, e, d, p, little) {
            Ok(v) => v,
            Err(er) => { return Err(er) },
        };
        let q2 = match post_align(d, q, node.is_align()) {
            Ok(v) => v,
            Err(er) => { return Err(er) },
        };
        proof {
            assert(spec_value_view(Value::Fields(items))->Fields_0 =~= items.deep_view());
        }
        Ok((ValueNode { field: node.duplicate(), value: Value::Fields(items) }, q2))
    } else {
        Err(Error::MalformedSchema)
    }
}

/// Decodes the run of sibling subtrees from `j` up to `e`.
pub fn decode_children(
    nodes: &Vec<TypeTreeNode>,
    j: usize,
    e: usize,
    d: &Vec<u8>,
    p: usize,
    little: bool,
) -> (r: Result<(Vec<ValueNode>, usize), Error>)
    requires
        j <= e <= nodes@.len(),
        p <= d@.len(),
    ensures
        match spec_decode_children(nodes.deep_view(), j as int, e as int, d@, p as int, little) {
            Some(v) => r matches Ok(x) && x.0.deep_view() == v.0 && x.1 == v.1 && x.1 <= d@.len(),
            None => r.is_err(),
        },
    decreases e - j, 2int, 0int,
{
    let ghost ndv = nodes.deep_view();
    proof {
        assert(ndv.len() == nodes@.len());
    }
    if j >= e {
        let out: Vec<ValueNode> = Vec::new();
        proof {
            assert(out.deep_view() =~= Seq::<SpecValueNode>::empty());
        }
        return Ok((out, p));
    }
    proof {
        assert(ndv[j as int] == nodes@[j as int]@);
    }
    let ces = subtree_end(nodes, nodes[j].node.level, j + 1);
    let ce = if ces <= e {
        ces
    } else {
        e
    };
    proof {
        lemma_subtree_end_bounds(ndv, ndv[j as int].node.level as int, j + 1);
    }
    let (v, q) = match decode_node(nodes, j, ce, d, p, little) {
        Ok(x) => x,
        Err(er) => { return Err(er) },
    };
    let (rest, q2) = match decode_children(nodes, ce, e, d, q, little) {
        Ok(x) => x,
        Err(er) => { return Err(er) },
    };
    let mut out: Vec<ValueNode> = Vec::new();
    out.push(v);
    let mut rest = rest;
    out.append(&mut rest);
    proof {
        let sv = spec_decode_children(ndv, j as int, e as int, d@, p as int, little).unwrap();
        assert(out.deep_view() =~= sv.0);
    }
    Ok((out, q2))
}

/// Decodes `n` repetitions of the element subtree `[i, e)`.
pub fn decode_array(
    nodes: &Vec<TypeTreeNode>,
    i: usize,
    e: usize,
    n: u32,
    d: &Vec<u8>,
    p: usize,
    little: bool,
) -> (r: Result<(Vec<ValueNode>, usize), Error>)
    requires
        i < e <= nodes@.len(),
        p <= d@.len(),
    ensures
        match spec_decode_array(nodes.deep_view(), i as int, e as int, n as int, d@, p as int, little) {
            Some(v) => r matches Ok(x) && x.0.deep_view() == v.0 && x.1 == v.1 && x.1 <= d@.len(),
            None => r.is_err(),
        },
    decreases e - i, 2int, n,
{
    let ghost ndv = nodes.deep_view();
    if n == 0 {
        let out: Vec<ValueNode> = Vec::new();
        proof {
            assert(out.deep_view() =~= Seq::<SpecValueNode>::empty());
        }
        return Ok((out, p));
    }
    let (v, q) = match decode_node(nodes, i, e, d, p, little) {
        Ok(x) => x,
        Err(er) => { return Err(er) },
    };
    let (rest, q2) = match decode_array(nodes, i, e, n - 1, d, q, little) {
        Ok(x) => x,
        Err(er) => { return Err(er) },
    };
    let mut out: Vec<ValueNode> = Vec::new();
    out.push(v);
    let mut rest = rest;
    out.append(&mut rest);
    proof {
        let sv = spec_decode_array(ndv, i as int, e as int, n as int, d@, p as int, little).unwrap();
        assert(out.deep_view() =~= sv.0);
    }
    Ok((out, q2))
}

/// Decodes a whole object: the schema root against the byte range from
/// position zero.
pub fn decode_object(nodes: &Vec<TypeTreeNode>, d: &Vec<u8>, little: bool) -> (r: Result<
    (ValueNode, usize),
    Error,
>)
    ensures
        match spec_decode_object(nodes.deep_view(), d@, little) {
            Some(v) => r matches Ok(x) && x.0@ == v.0 && x.1 == v.1,
            None => r.is_err(),
        },
{
    proof {
        assert(nodes.deep_view().len() == nodes@.len());
    }
    if nodes.len() == 0 {
        return Err(Error::MalformedSchema);
    }
    proof {
        assert(nodes.deep_view()[0] == nodes@[0]@);
    }
    let e = subtree_end(nodes, nodes[0].node.level, 1);
    decode_node(nodes, 0, e, d, 0, little)
}


/// First index at or after `i` holding the path separator `/`, or the
/// length of `b`.
pub open spec fn spec_sep_at(b: Seq<u8>, i: int) -> int
    decreases b.len() - i,
    when 0 <= i
{
    if i >= b.len() {
        b.len() as int
    } else if b[i] == 0x2f {
        i
    } else {
        spec_sep_at(b, i + 1)
    }
}

/// The separator scan stays in bounds.
pub proof fn lemma_sep_at_bounds(b: Seq<u8>, i: int)
    requires
        0 <= i <= b.len(),
    ensures
        i <= spec_sep_at(b, i) <= b.len(),
    decreases b.len() - i,
{
    if i < b.len() && b[i] != 0x2f {
        lemma_sep_at_bounds(b, i + 1);
    }
}

/// The segments of `b` from index `i` on, split at every `/` byte.
pub open spec fn spec_split_at(b: Seq<u8>, i: int) -> Seq<Seq<u8>>
    decreases b.len() - i,
    when 0 <= i
    via spec_split_at_dec
{
    let j = spec_sep_at(b, i);
    if j >= b.len() {
        seq![b.subrange(i, b.len() as int)]
    } else {
        seq![b.subrange(i, j)] + spec_split_at(b, j + 1)
    }
}

#[via_fn]
proof fn spec_split_at_dec(b: Seq<u8>, i: int) {
    if 0 <= i <= b.len() {
        lemma_sep_at_bounds(b, i);
    }
}

/// Splits the bytes from index `i` on at every `/` byte.
pub fn split_path_from(b: &Vec<u8>, i: usize) -> (r: Vec<Vec<u8>>)
    requires
        i <= b@.len(),
    ensures
        r.deep_view() == spec_split_at(b@, i as int),
    decreases b@.len() - i,
{
    proof {
        lemma_sep_at_bounds(b@, i as int);
    }
    let mut j: usize = i;
    while j < b.len() && b[j] != 0x2f
        invariant
            i <= j <= b@.len(),
            spec_sep_at(b@, i as int) == spec_sep_at(b@, j as int),
        decreases b@.len() - j,
    {
        proof {
            assert(spec_sep_at(b@, j as int) == spec_sep_at(b@, j + 1));
        }
        j += 1;
    }
    proof {
        lemma_sep_at_bounds(b@, j as int);
        assert(j as int == spec_sep_at(b@, i as int));
    }
    let seg = match raw::read_bytes(b, i, j - i) {
        Ok((v, _)) => v,
        Err(_) => {
            proof {
                assert(false);
            }
            Vec::new()
        },
    };
    if j >= b.len() {
        let mut out: Vec<Vec<u8>> = Vec::new();
        out.push(seg);
        proof {
            assert(out.deep_view() =~~= spec_split_at(b@, i as int));
        }
        out
    } else {
        let rest = split_path_from(b, j + 1);
        let mut out: Vec<Vec<u8>> = Vec::new();
        out.push(seg);
        let mut rest = rest;
        out.append(&mut rest);
        proof {
            assert(out.deep_view() =~~= spec_split_at(b@, i as int));
        }
        out
    }
}

/// First index at or after `j` of a field whose schema name equals `name`,
/// or the number of fields.
pub open spec fn spec_first_named(items: Seq<SpecValueNode>, name: Seq<u8>, j: int) -> int
    decreases items.len() - j,
    when 0 <= j
{
    if j >= items.len() {
        items.len() as int
    } else if items[j].field.name == name {
        j
    } else {
        spec_first_named(items, name, j + 1)
    }
}

/// The named-field scan stays in bounds.
pub proof fn lemma_first_named_bounds(items: Seq<SpecValueNode>, name: Seq<u8>, j: int)
    requires
        0 <= j <= items.len(),
    ensures
        j <= spec_first_named(items, name, j) <= items.len(),
    decreases items.len() - j,
{
    if j < items.len() && items[j].field.name != name {
        lemma_first_named_bounds(items, name, j + 1);
    }
}

/// Walks the value tree along the path segments from `si` on: each
/// segment names a field of the current mapping node.
pub open spec fn spec_lookup(v: SpecValueNode, segs: Seq<Seq<u8>>, si: int) -> Option<SpecValueNode>
    decreases segs.len() - si,
    when 0 <= si
{
    if si >= segs.len() {
        Some(v)
    } else {
        match v.value {
            SpecValue::Fields(items) => {
                let k = spec_first_named(items, segs[si], 0);
                if k < items.len() {
                    spec_lookup(items[k], segs, si + 1)
                } else {
                    None
                }
            },
            _ => None,
        }
    }
}

/// Resolves a slash-delimited path against a decoded tree: the path must
/// start with a `/`, its first segment names the root node, and every
/// later segment steps into a field of a mapping.
pub open spec fn spec_path_lookup(root: SpecValueNode, pb: Seq<u8>) -> Option<SpecValueNode> {
    let segs = spec_split_at(pb, 0);
    if segs.len() < 2 || segs[0].len() != 0 || segs[1] != root.field.name {
        None
    } else {
        spec_lookup(root, segs, 2)
    }
}

/// Walks the decoded tree along the path segments from `si` on.
pub fn lookup_node<'a>(v: &'a ValueNode, segs: &Vec<Vec<u8>>, si: usize) -> (r: Option<
    &'a ValueNode,
>)
    requires
        si <= segs@.len(),
    ensures
        match spec_lookup(v@, segs.deep_view(), si as int) {
            Some(sv) => r matches Some(x) && x@ == sv,
            None => r is None,
        },
    decreases segs@.len() - si,
{
    proof {
        assert(segs.deep_view().len() == segs@.len());
    }
    if si >= segs.len() {
        return Some(v);
    }
    match &v.value {
        Value::Fields(items) => {
            let ghost sitems = (v@.value)->Fields_0;
            proof {
                assert(sitems.len() == items@.len());
            }
            let mut k: usize = 0;
            while k < items.len()
                invariant
                    k <= items@.len(),
                    sitems == (v@.value)->Fields_0,
                    sitems.len() == items@.len(),
                    v@.value is Fields,
                    forall|j: int| 0 <= j < items@.len() ==> #[trigger] sitems[j] == items@[j]@,
                    si < segs@.len(),
                    segs@.len() <= usize::MAX,
                    segs.deep_view().len() == segs@.len(),
                    segs.deep_view()[si as int] == segs@[si as int]@,
                    forall|j: int|
                        0 <= j < k ==> #[trigger] sitems[j].field.name != segs.deep_view()[si as int],
                decreases items@.len() - k,
            {
                proof {
                    assert(sitems[k as int] == items@[k as int]@);
                }
                if strutil::bytes_eq_str(&segs[si], items[k].field.name.as_str()) {
                    proof {
                        assert(spec_first_named(sitems, segs.deep_view()[si as int], 0) == k) by {
                            lemma_first_named_prefix(sitems, segs.deep_view()[si as int], k as int);
                        }
                    }
                    return lookup_node(&items[k], segs, si + 1);
                }
                k += 1;
            }
            proof {
                lemma_first_named_prefix(sitems, segs.deep_view()[si as int], sitems.len() as int);
            }
            None
        },
        _ => None,
    }
}

/// When the first `k` fields do not carry the name, the scan for it starts
/// at `k`.
proof fn lemma_first_named_prefix(items: Seq<SpecValueNode>, name: Seq<u8>, k: int)
    requires
        0 <= k <= items.len(),
        forall|j: int| 0 <= j < k ==> #[trigger] items[j].field.name != name,
    ensures
        spec_first_named(items, name, 0) >= k,
        k < items.len() && items[k].field.name == name ==> spec_first_named(items, name, 0) == k,
        k == items.len() ==> spec_first_named(items, name, 0) == items.len(),
    decreases k,
{
    lemma_first_named_skip(items, name, 0, k);
    lemma_first_named_bounds(items, name, k);
}

/// The scan from `j` skips every index below `k` whose name differs.
proof fn lemma_first_named_skip(items: Seq<SpecValueNode>, name: Seq<u8>, j: int, k: int)
    requires
        0 <= j <= k <= items.len(),
        forall|x: int| j <= x < k ==> #[trigger] items[x].field.name != name,
    ensures
        spec_first_named(items, name, j) == spec_first_named(items, name, k),
    decreases k - j,
{
    if j < k {
        lemma_first_named_skip(items, name, j + 1, k);
    }
}


/// Positions produced by the four-byte alignment are multiples of four.
pub proof fn lemma_align4_multiple()
    ensures
        forall|q: int| q >= 0 ==> #[trigger] raw::spec_align4(q) % 4 == 0,
{
    assert forall|q: int| q >= 0 implies #[trigger] raw::spec_align4(q) % 4 == 0 by {
        let r = q % 4;
        assert(0 <= r < 4);
        assert(q == 4 * (q / 4) + r);
    }
}

/// A node that asks for trailing alignment leaves the cursor on a
/// four-byte boundary whenever it decodes at all.
#[verifier::rlimit(100)]
#[verifier::spinoff_prover]
pub proof fn lemma_aligned_node_end(
    nodes: Seq<TypeTreeNodeV>,
    i: int,
    e: int,
    d: Seq<u8>,
    p: int,
    little: bool,
)
    requires
        0 <= i < e <= nodes.len(),
        0 <= p,
        spec_is_align(nodes[i].node),
        spec_decode_node(nodes, i, e, d, p, little) is Some,
    ensures
        spec_decode_node(nodes, i, e, d, p, little).unwrap().1 % 4 == 0,
{
    lemma_align4_multiple();
}

/// A schema node flagged for alignment nested as the element of an array
/// advances the cursor to a multiple of four after each of the elements:
/// every prefix of the element run ends on a four-byte boundary.
#[verifier::rlimit(100)]
pub proof fn lemma_array_elements_end_aligned(
    nodes: Seq<TypeTreeNodeV>,
    i: int,
    e: int,
    n: int,
    d: Seq<u8>,
    p: int,
    little: bool,
)
    requires
        0 <= i < e <= nodes.len(),
        0 <= p,
        0 <= n,
        spec_is_align(nodes[i].node),
        spec_decode_array(nodes, i, e, n, d, p, little) is Some,
    ensures
        forall|k: int|
            1 <= k <= n ==> (#[trigger] spec_decode_array(nodes, i, e, k, d, p, little)) is Some
                && spec_decode_array(nodes, i, e, k, d, p, little).unwrap().1 % 4 == 0,
    decreases n,
{
    if n > 0 {
        let (v, q) = spec_decode_node(nodes, i, e, d, p, little).unwrap();
        lemma_aligned_node_end(nodes, i, e, d, p, little);
        lemma_array_elements_end_aligned(nodes, i, e, n - 1, d, q, little);
        assert forall|k: int|
            1 <= k <= n implies (#[trigger] spec_decode_array(nodes, i, e, k, d, p, little))
            is Some && spec_decode_array(nodes, i, e, k, d, p, little).unwrap().1 % 4 == 0 by {
            if k == 1 {
                assert(spec_decode_array(nodes, i, e, 0, d, q, little) == Some(
                    (Seq::<SpecValueNode>::empty(), q),
                ));
            } else {
                assert(spec_decode_array(nodes, i, e, k - 1, d, q, little) is Some);
                assert(spec_decode_array(nodes, i, e, k, d, p, little).unwrap().1
                    == spec_decode_array(nodes, i, e, k - 1, d, q, little).unwrap().1);
            }
        }
    }
}


/// True when a value carries the variant a primitive kind declares.
pub open spec fn spec_variant_of(k: PrimKind, v: SpecValue) -> bool {
    match k {
        PrimKind::Bool => v is Bool,
        PrimKind::SInt8 => v is SInt8,
        PrimKind::UInt8 => v is UInt8,
        PrimKind::SInt16 => v is SInt16,
        PrimKind::UInt16 => v is UInt16,
        PrimKind::SInt32 => v is SInt32,
        PrimKind::UInt32 => v is UInt32,
        PrimKind::SInt64 => v is SInt64,
        PrimKind::UInt64 => v is UInt64,
        PrimKind::Float => v is Float,
        PrimKind::Double => v is Double,
        PrimKind::NotPrim => false,
    }
}

/// True when a decoded node mirrors the schema subtree `[i, e)`: it
/// carries the schema node itself, its value has the variant the node's
/// type name declares, and its elements or fields mirror the node's
/// children in schema order.
pub open spec fn spec_node_matches(
    nodes: Seq<TypeTreeNodeV>,
    i: int,
    e: int,
    x: SpecValueNode,
) -> bool
    decreases e - i, 1int, 0int,
    when 0 <= i < e <= nodes.len()
    via spec_node_matches_dec
{
    let node = nodes[i];
    let k = spec_prim_kind(node.ty_name);
    &&& x.field == node
    &&& if node.ty_name == str8("string"@) {
        x.value is Str
    } else if spec_is_array(node.node) {
        let c1 = if spec_subtree_end(nodes, nodes[i + 1].node.level as int, i + 2) <= e {
            spec_subtree_end(nodes, nodes[i + 1].node.level as int, i + 2)
        } else {
            e
        };
        if i + 1 >= e || c1 >= e {
            false
        } else {
            let c1e = if spec_subtree_end(nodes, nodes[c1].node.level as int, c1 + 1) <= e {
                spec_subtree_end(nodes, nodes[c1].node.level as int, c1 + 1)
            } else {
                e
            };
            x.value matches SpecValue::Array(items) && forall|m: int|
                0 <= m < items.len() ==> spec_node_matches(nodes, c1, c1e, #[trigger] items[m])
        }
    } else if k != PrimKind::NotPrim {
        spec_variant_of(k, x.value)
    } else if spec_is_pptr_shape(nodes, i, e) {
        x.value is Ref
    } else if i + 1 < e {
        x.value matches SpecValue::Fields(items) && spec_children_match(nodes, i + 1, e, items)
    } else {
        false
    }
}

/// True when a field sequence mirrors the run of sibling subtrees from
/// `j` to `e`, one field per subtree, in order.
pub open spec fn spec_children_match(
    nodes: Seq<TypeTreeNodeV>,
    j: int,
    e: int,
    items: Seq<SpecValueNode>,
) -> bool
    decreases e - j, 2int, 0int,
    when 0 <= j && j <= e <= nodes.len()
    via spec_children_match_dec
{
    if j >= e {
        items.len() == 0
    } else {
        let ce = if spec_subtree_end(nodes, nodes[j].node.level as int, j + 1) <= e {
            spec_subtree_end(nodes, nodes[j].node.level as int, j + 1)
        } else {
            e
        };
        &&& items.len() > 0
        &&& spec_node_matches(nodes, j, ce, items[0])
        &&& spec_children_match(nodes, ce, e, items.drop_first())
    }
}

#[via_fn]
proof fn spec_node_matches_dec(nodes: Seq<TypeTreeNodeV>, i: int, e: int, x: SpecValueNode) {
    if 0 <= i < e <= nodes.len() && i + 2 <= nodes.len() {
        lemma_subtree_end_bounds(nodes, nodes[i + 1].node.level as int, i + 2);
        let c1 = if spec_subtree_end(nodes, nodes[i + 1].node.level as int, i + 2) <= e {
            spec_subtree_end(nodes, nodes[i + 1].node.level as int, i + 2)
        } else {
            e
        };
        if 0 <= c1 < nodes.len() {
            lemma_subtree_end_bounds(nodes, nodes[c1].node.level as int, c1 + 1);
        }
    }
}

#[via_fn]
proof fn spec_children_match_dec(nodes: Seq<TypeTreeNodeV>, j: int, e: int, items: Seq<SpecValueNode>) {
    if 0 <= j < nodes.len() {
        lemma_subtree_end_bounds(nodes, nodes[j].node.level as int, j + 1);
    }
}

/// Whatever the decoder accepts mirrors its schema: a successful decode
/// of the subtree `[i, e)` yields a node that carries its schema node and
/// whose value variant matches the declared type, recursively through
/// arrays and structures.
#[verifier::rlimit(100)]
#[verifier::spinoff_prover]
pub proof fn lemma_decode_matches_schema(
    nodes: Seq<TypeTreeNodeV>,
    i: int,
    e: int,
    d: Seq<u8>,
    p: int,
    little: bool,
)
    requires
        0 <= i < e <= nodes.len(),
        0 <= p,
        spec_decode_node(nodes, i, e, d, p, little) is Some,
    ensures
        spec_node_matches(nodes, i, e, spec_decode_node(nodes, i, e, d, p, little).unwrap().0),
    decreases e - i, 1int, 0int,
{
    let node = nodes[i];
    let k = spec_prim_kind(node.ty_name);
    let x = spec_decode_node(nodes, i, e, d, p, little).unwrap().0;
    if node.ty_name == str8("string"@) {
    } else if spec_is_array(node.node) {
        let c1s = spec_subtree_end(nodes, nodes[i + 1].node.level as int, i + 2);
        let c1 = if c1s <= e {
            c1s
        } else {
            e
        };
        if !(i + 1 >= e || c1 >= e) {
            lemma_subtree_end_bounds(nodes, nodes[i + 1].node.level as int, i + 2);
            let c1es = spec_subtree_end(nodes, nodes[c1].node.level as int, c1 + 1);
            let c1e = if c1es <= e {
                c1es
            } else {
                e
            };
            lemma_subtree_end_bounds(nodes, nodes[c1].node.level as int, c1 + 1);
            let n = raw::spec_i32_at(d, p, little) as int;
            lemma_decode_array_matches(nodes, c1, c1e, n, d, p + 4, little);
        }
    } else if k != PrimKind::NotPrim {
    } else if spec_is_pptr_shape(nodes, i, e) {
    } else if i + 1 < e {
        lemma_decode_children_match(nodes, i + 1, e, d, p, little);
    }
}

/// The run of sibling subtrees decodes to fields that mirror it.
#[verifier::rlimit(100)]
#[verifier::spinoff_prover]
pub proof fn lemma_decode_children_match(
    nodes: Seq<TypeTreeNodeV>,
    j: int,
    e: int,
    d: Seq<u8>,
    p: int,
    little: bool,
)
    requires
        0 <= j <= e <= nodes.len(),
        0 <= p,
        spec_decode_children(nodes, j, e, d, p, little) is Some,
    ensures
        spec_children_match(nodes, j, e, spec_decode_children(nodes, j, e, d, p, little).unwrap().0),
    decreases e - j, 2int, 0int,
{
    if j < e {
        let ces = spec_subtree_end(nodes, nodes[j].node.level as int, j + 1);
        let ce = if ces <= e {
            ces
        } else {
            e
        };
        lemma_subtree_end_bounds(nodes, nodes[j].node.level as int, j + 1);
        let (v, q) = spec_decode_node(nodes, j, ce, d, p, little).unwrap();
        lemma_decode_matches_schema(nodes, j, ce, d, p, little);
        lemma_decode_children_match(nodes, ce, e, d, q, little);
        let items = spec_decode_children(nodes, j, e, d, p, little).unwrap().0;
        let rest = spec_decode_children(nodes, ce, e, d, q, little).unwrap().0;
        assert(items == seq![v] + rest);
        assert(items.drop_first() =~= rest);
        assert(items[0] == v);
    }
}

/// Every element of a decoded array mirrors the element subtree.
#[verifier::rlimit(100)]
#[verifier::spinoff_prover]
pub proof fn lemma_decode_array_matches(
    nodes: Seq<TypeTreeNodeV>,
    i: int,
    e: int,
    n: int,
    d: Seq<u8>,
    p: int,
    little: bool,
)
    requires
        0 <= i < e <= nodes.len(),
        0 <= p,
        0 <= n,
        spec_decode_array(nodes, i, e, n, d, p, little) is Some,
    ensures
        ({
            let items = spec_decode_array(nodes, i, e, n, d, p, little).unwrap().0;
            forall|m: int| 0 <= m < items.len() ==> spec_node_matches(nodes, i, e, #[trigger] items[m])
        }),
    decreases e - i, 2int, n,
{
    if n > 0 {
        let (v, q) = spec_decode_node(nodes, i, e, d, p, little).unwrap();
        lemma_decode_matches_schema(nodes, i, e, d, p, little);
        lemma_decode_array_matches(nodes, i, e, n - 1, d, q, little);
        let items = spec_decode_array(nodes, i, e, n, d, p, little).unwrap().0;
        let rest = spec_decode_array(nodes, i, e, n - 1, d, q, little).unwrap().0;
        assert(items == seq![v] + rest);
        assert forall|m: int| 0 <= m < items.len() implies spec_node_matches(
            nodes,
            i,
            e,
            #[trigger] items[m],
        ) by {
            if m > 0 {
                assert(items[m] == rest[m - 1]);
            }
        }
    }
}


/// The first sibling subtree in `[j, e)` whose root is named `name`: its
/// start and end, or `None`.
pub open spec fn spec_schema_child(
    nodes: Seq<TypeTreeNodeV>,
    j: int,
    e: int,
    name: Seq<u8>,
) -> Option<(int, int)>
    decreases e - j,
    when 0 <= j && j <= e <= nodes.len()
    via spec_schema_child_dec
{
    if j >= e {
        None
    } else {
        let ce = if spec_subtree_end(nodes, nodes[j].node.level as int, j + 1) <= e {
            spec_subtree_end(nodes, nodes[j].node.level as int, j + 1)
        } else {
            e
        };
        if nodes[j].name == name {
            Some((j, ce))
        } else {
            spec_schema_child(nodes, ce, e, name)
        }
    }
}

#[via_fn]
proof fn spec_schema_child_dec(nodes: Seq<TypeTreeNodeV>, j: int, e: int, name: Seq<u8>) {
    if 0 <= j < nodes.len() {
        lemma_subtree_end_bounds(nodes, nodes[j].node.level as int, j + 1);
    }
}

/// Walks the schema along the path segments from `si` on, stepping into
/// the first child of each structure node that carries the segment's
/// name; the subtree the path designates, or `None` when a step leaves a
/// non-structure node or names no child.
pub open spec fn spec_schema_lookup(
    nodes: Seq<TypeTreeNodeV>,
    i: int,
    e: int,
    segs: Seq<Seq<u8>>,
    si: int,
) -> Option<(int, int)>
    decreases segs.len() - si,
    when 0 <= si && 0 <= i < e <= nodes.len()
    via spec_schema_lookup_dec
{
    if si >= segs.len() {
        Some((i, e))
    } else {
        let node = nodes[i];
        let k = spec_prim_kind(node.ty_name);
        if node.ty_name == str8("string"@) || spec_is_array(node.node) || k != PrimKind::NotPrim
            || spec_is_pptr_shape(nodes, i, e) || i + 1 >= e {
            None
        } else {
            match spec_schema_child(nodes, i + 1, e, segs[si]) {
                Option::None => Option::None,
                Option::Some((cj, cje)) => spec_schema_lookup(nodes, cj, cje, segs, si + 1),
            }
        }
    }
}

#[via_fn]
proof fn spec_schema_lookup_dec(
    nodes: Seq<TypeTreeNodeV>,
    i: int,
    e: int,
    segs: Seq<Seq<u8>>,
    si: int,
) {
    if 0 <= i < e <= nodes.len() && si < segs.len() {
        lemma_schema_child_bounds(nodes, i + 1, e, segs[si]);
    }
}

/// A found child subtree lies inside the sibling run and is nonempty.
pub proof fn lemma_schema_child_bounds(nodes: Seq<TypeTreeNodeV>, j: int, e: int, name: Seq<u8>)
    requires
        0 <= j <= e <= nodes.len(),
    ensures
        spec_schema_child(nodes, j, e, name) matches Some(c) ==> j <= c.0 < c.1 <= e,
    decreases e - j,
{
    if j < e {
        lemma_subtree_end_bounds(nodes, nodes[j].node.level as int, j + 1);
        let ce = if spec_subtree_end(nodes, nodes[j].node.level as int, j + 1) <= e {
            spec_subtree_end(nodes, nodes[j].node.level as int, j + 1)
        } else {
            e
        };
        if nodes[j].name != name {
            lemma_schema_child_bounds(nodes, ce, e, name);
        }
    }
}

/// Scanning for a name from index one of a sequence is scanning its tail
/// from index zero, shifted by one.
proof fn lemma_first_named_shift(items: Seq<SpecValueNode>, name: Seq<u8>, j: int)
    requires
        1 <= j <= items.len(),
    ensures
        spec_first_named(items, name, j) == 1 + spec_first_named(items.drop_first(), name, j - 1),
    decreases items.len() - j,
{
    if j < items.len() {
        assert(items.drop_first()[j - 1] == items[j]);
        if items[j].field.name != name {
            lemma_first_named_shift(items, name, j + 1);
        }
    }
}

/// Fields that mirror a sibling run are found by name exactly where the
/// schema's first subtree of that name sits.
proof fn lemma_children_lookup(
    nodes: Seq<TypeTreeNodeV>,
    j: int,
    e: int,
    items: Seq<SpecValueNode>,
    name: Seq<u8>,
)
    requires
        0 <= j <= e <= nodes.len(),
        spec_children_match(nodes, j, e, items),
    ensures
        match spec_schema_child(nodes, j, e, name) {
            Some(c) => {
                let k = spec_first_named(items, name, 0);
                0 <= k < items.len() && spec_node_matches(nodes, c.0, c.1, items[k])
            },
            None => spec_first_named(items, name, 0) >= items.len(),
        },
    decreases e - j,
{
    if j < e {
        lemma_subtree_end_bounds(nodes, nodes[j].node.level as int, j + 1);
        let ce = if spec_subtree_end(nodes, nodes[j].node.level as int, j + 1) <= e {
            spec_subtree_end(nodes, nodes[j].node.level as int, j + 1)
        } else {
            e
        };
        assert(spec_node_matches(nodes, j, ce, items[0]));
        if nodes[j].name == name {
            assert(items[0].field == nodes[j]);
            assert(spec_first_named(items, name, 0) == 0);
        } else {
            assert(items[0].field.name != name);
            lemma_children_lookup(nodes, ce, e, items.drop_first(), name);
            lemma_first_named_shift(items, name, 1);
            match spec_schema_child(nodes, ce, e, name) {
                Option::Some(c) => {
                    let k2 = spec_first_named(items.drop_first(), name, 0);
                    assert(items.drop_first()[k2] == items[k2 + 1]);
                },
                Option::None => {},
            }
        }
    }
}

/// Querying a decoded tree follows the schema: when the schema walk along
/// the path designates a subtree, the value walk finds a node that
/// mirrors it, so a leaf's declared primitive type fixes the variant the
/// query returns.
#[verifier::rlimit(100)]
#[verifier::spinoff_prover]
pub proof fn lemma_lookup_matches(
    nodes: Seq<TypeTreeNodeV>,
    i: int,
    e: int,
    x: SpecValueNode,
    segs: Seq<Seq<u8>>,
    si: int,
)
    requires
        0 <= i < e <= nodes.len(),
        0 <= si,
        spec_node_matches(nodes, i, e, x),
    ensures
        match spec_schema_lookup(nodes, i, e, segs, si) {
            Some(c) => spec_lookup(x, segs, si) matches Some(y) && spec_node_matches(
                nodes,
                c.0,
                c.1,
                y,
            ),
            None => true,
        },
    decreases segs.len() - si,
{
    if si < segs.len() {
        let node = nodes[i];
        let k = spec_prim_kind(node.ty_name);
        if !(node.ty_name == str8("string"@) || spec_is_array(node.node) || k != PrimKind::NotPrim
            || spec_is_pptr_shape(nodes, i, e) || i + 1 >= e) {
            let items = (x.value)->Fields_0;
            lemma_children_lookup(nodes, i + 1, e, items, segs[si]);
            match spec_schema_child(nodes, i + 1, e, segs[si]) {
                Option::Some(c) => {
                    lemma_schema_child_bounds(nodes, i + 1, e, segs[si]);
                    let kk = spec_first_named(items, segs[si], 0);
                    lemma_lookup_matches(nodes, c.0, c.1, items[kk], segs, si + 1);
                },
                Option::None => {},
            }
        }
    }
}

/// A subtree the schema walk designates lies inside the node list.
pub proof fn lemma_schema_lookup_bounds(
    nodes: Seq<TypeTreeNodeV>,
    i: int,
    e: int,
    segs: Seq<Seq<u8>>,
    si: int,
)
    requires
        0 <= i < e <= nodes.len(),
        0 <= si,
    ensures
        spec_schema_lookup(nodes, i, e, segs, si) matches Some(c) ==> 0 <= c.0 < c.1 <= nodes.len(),
    decreases segs.len() - si,
{
    if si < segs.len() {
        let node = nodes[i];
        let k = spec_prim_kind(node.ty_name);
        if !(node.ty_name == str8("string"@) || spec_is_array(node.node) || k != PrimKind::NotPrim
            || spec_is_pptr_shape(nodes, i, e) || i + 1 >= e) {
            match spec_schema_child(nodes, i + 1, e, segs[si]) {
                Option::Some(c) => {
                    lemma_schema_child_bounds(nodes, i + 1, e, segs[si]);
                    lemma_schema_lookup_bounds(nodes, c.0, c.1, segs, si + 1);
                },
                Option::None => {},
            }
        }
    }
}

/// Decoding an object and querying it by a slash path yields the node the
/// schema designates for that path; in particular, a primitive leaf's
/// declared type fixes the variant the query returns.
#[verifier::rlimit(100)]
#[verifier::spinoff_prover]
pub proof fn lemma_decoded_query_follows_schema(
    nodes: Seq<TypeTreeNodeV>,
    d: Seq<u8>,
    little: bool,
    pb: Seq<u8>,
)
    requires
        nodes.len() > 0,
        spec_decode_object(nodes, d, little) is Some,
    ensures
        ({
            let root = spec_decode_object(nodes, d, little).unwrap().0;
            let e0 = spec_subtree_end(nodes, nodes[0].node.level as int, 1);
            let segs = spec_split_at(pb, 0);
            (segs.len() >= 2 && segs[0].len() == 0 && segs[1] == nodes[0].name && e0 >= 1)
                ==> match spec_schema_lookup(nodes, 0, e0, segs, 2) {
                Some(c) => spec_path_lookup(root, pb) matches Some(y) && spec_node_matches(
                    nodes,
                    c.0,
                    c.1,
                    y,
                ) && (nodes[c.0].ty_name != str8("string"@) && !spec_is_array(nodes[c.0].node)
                    && spec_prim_kind(nodes[c.0].ty_name) != PrimKind::NotPrim ==> spec_variant_of(
                    spec_prim_kind(nodes[c.0].ty_name),
                    y.value,
                )),
                None => true,
            }
        }),
{
    let root = spec_decode_object(nodes, d, little).unwrap().0;
    let e0 = spec_subtree_end(nodes, nodes[0].node.level as int, 1);
    lemma_subtree_end_bounds(nodes, nodes[0].node.level as int, 1);
    let segs = spec_split_at(pb, 0);
    if segs.len() >= 2 && segs[0].len() == 0 && segs[1] == nodes[0].name && e0 >= 1 {
        lemma_decode_matches_schema(nodes, 0, e0, d, 0, little);
        assert(root.field == nodes[0]);
        lemma_lookup_matches(nodes, 0, e0, root, segs, 2);
        lemma_schema_lookup_bounds(nodes, 0, e0, segs, 2);
    }
}

} // verus!

