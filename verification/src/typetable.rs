//! The type table: how a Rust signature is described to a schema reader.
//!
//! Every type that a signature mentions becomes a node of a flat table; the
//! nodes of its parts stand before it and are referred to by position.
use vstd::prelude::*;
use vstd::string::StringExecFns;

use crate::text::{dec, decimal, same, strings_model};

verus! {

// ---------------------------------------------------------------------------
// Rust types
// ---------------------------------------------------------------------------

/// A Rust type, as written in a signature: its text, and its shape as far as
/// the table looks into it.
pub struct RustType {
    pub text: String,
    pub shape: Shape,
}

/// The shape of a Rust type.
pub enum Shape {
    /// A tuple; the empty one is `()`.
    Tuple(Vec<RustType>),
    /// A path: its last name, whether the path is that name alone, and the
    /// first argument in angle brackets if it is a type.
    Path(String, bool, Option<Box<RustType>>),
    /// `&T`, or `&mut T` if the flag is set.
    Reference(bool, Box<RustType>),
    /// `[T]`.
    Slice(Box<RustType>),
    /// `[T; N]`; 0 stands for a length that is not a literal.
    Array(Box<RustType>, u32),
    /// Anything else.
    Other,
}

// ---------------------------------------------------------------------------
// Nodes
// ---------------------------------------------------------------------------

/// What a node of a type table describes.
#[derive(Clone, Copy, Debug, PartialEq, Eq, Structural)]
pub enum IdlKind {
    Unit,
    U8,
    U32,
    U64,
    F32,
    F64,
    Array,
    Slice,
    Str,
    Vec,
    Option,
    Tuple,
    String,
    Bool,
    OutVec,
    Enum,
    Struct,
}

/// A node of a type table. The children of a composite are positions in the
/// table; the first child of an enum or a struct is a position in the list of
/// enum or struct names.
#[derive(Clone, Copy, Debug, PartialEq, Eq, Structural)]
pub struct IdlTypeNode {
    pub kind: IdlKind,
    pub size: u32,
    pub child0: Option<usize>,
    pub child1: Option<usize>,
}

impl IdlKind {
    /// Whether the children of a node of this kind are positions in the table.
    pub open spec fn has_parts(self) -> bool {
        self is Array || self is Slice || self is Vec || self is Option || self is Tuple
    }

    /// The name of the constant for the kind.
    pub open spec fn constant(self) -> Seq<char> {
        match self {
            IdlKind::Unit => "IDL_UNIT"@,
            IdlKind::U8 => "IDL_U8"@,
            IdlKind::U32 => "IDL_U32"@,
            IdlKind::U64 => "IDL_U64"@,
            IdlKind::F32 => "IDL_F32"@,
            IdlKind::F64 => "IDL_F64"@,
            IdlKind::Array => "IDL_ARRAY"@,
            IdlKind::Slice => "IDL_SLICE"@,
            IdlKind::Str => "IDL_STR"@,
            IdlKind::Vec => "IDL_VEC"@,
            IdlKind::Option => "IDL_OPTION"@,
            IdlKind::Tuple => "IDL_TUPLE"@,
            IdlKind::String => "IDL_STRING"@,
            IdlKind::Bool => "IDL_BOOL"@,
            IdlKind::OutVec => "IDL_OUT_VEC"@,
            IdlKind::Enum => "IDL_ENUM"@,
            IdlKind::Struct => "IDL_STRUCT"@,
        }
    }

    fn constant_name(self) -> (r: &'static str)
        ensures
            r@ == self.constant(),
    {
        match self {
            IdlKind::Unit => "IDL_UNIT",
            IdlKind::U8 => "IDL_U8",
            IdlKind::U32 => "IDL_U32",
            IdlKind::U64 => "IDL_U64",
            IdlKind::F32 => "IDL_F32",
            IdlKind::F64 => "IDL_F64",
            IdlKind::Array => "IDL_ARRAY",
            IdlKind::Slice => "IDL_SLICE",
            IdlKind::Str => "IDL_STR",
            IdlKind::Vec => "IDL_VEC",
            IdlKind::Option => "IDL_OPTION",
            IdlKind::Tuple => "IDL_TUPLE",
            IdlKind::String => "IDL_STRING",
            IdlKind::Bool => "IDL_BOOL",
            IdlKind::OutVec => "IDL_OUT_VEC",
            IdlKind::Enum => "IDL_ENUM",
            IdlKind::Struct => "IDL_STRUCT",
        }
    }
}

/// A node without children.
pub open spec fn leaf(kind: IdlKind) -> IdlTypeNode {
    IdlTypeNode { kind, size: 0, child0: None, child1: None }
}

/// A node with one child.
pub open spec fn node1(kind: IdlKind, child: nat) -> IdlTypeNode {
    IdlTypeNode { kind, size: 0, child0: Some(child as usize), child1: None }
}

/// The text of a child: its position, or -1.
pub open spec fn child_text(c: Option<usize>) -> Seq<char> {
    match c {
        Some(n) => dec(n as nat),
        None => "-1"@,
    }
}

/// The Rust expression for a node.
pub open spec fn node_code(node: IdlTypeNode) -> Seq<char> {
    let kind = node.kind.constant();
    let size = node.size;
    let c0 = child_text(node.child0);
    let c1 = child_text(node.child1);
    "dynspire::ffi::IdlTypeNode { kind: dynspire::ffi::"@
        + kind
        + ", _pad: [0; 3], size: "@
        + dec(size as nat)
        + ", child0: "@
        + c0
        + ", child1: "@
        + c1
        + " }"@
}

fn gen_child(c: Option<usize>) -> (r: String)
    ensures
        r@ == child_text(c),
{
    match c {
        Some(n) => decimal(n as u64),
        None => String::from_str("-1"),
    }
}

/// The Rust expression for a node.
pub fn gen_node(node: IdlTypeNode) -> (r: String)
    ensures
        r@ == node_code(node),
{
    let kind = node.kind.constant_name();
    let size: u32 = node.size;
    let c0 = gen_child(node.child0);
    let c1 = gen_child(node.child1);
    String::from_str("dynspire::ffi::IdlTypeNode { kind: dynspire::ffi::")
        .concat(kind)
        .concat(", _pad: [0; 3], size: ")
        .concat(decimal(size as u64).as_str())
        .concat(", child0: ")
        .concat(c0.as_str())
        .concat(", child1: ")
        .concat(c1.as_str())
        .concat(" }")
}

// ---------------------------------------------------------------------------
// The table of a type
// ---------------------------------------------------------------------------

/// The model of a [`TypeTableBuilder`].
pub struct Table {
    pub nodes: Seq<IdlTypeNode>,
    pub enums: Seq<Seq<char>>,
    pub structs: Seq<Seq<char>>,
}

/// The position of `name` in `names` from `i` on.
pub open spec fn position_from(names: Seq<Seq<char>>, name: Seq<char>, i: nat) -> Option<nat>
    decreases names.len() - i,
{
    if i >= names.len() {
        None
    } else if names[i as int] == name {
        Some(i)
    } else {
        position_from(names, name, i + 1)
    }
}

/// `names` with `name` in it, at the end if it was not there, and where it is.
pub open spec fn with_name(names: Seq<Seq<char>>, name: Seq<char>) -> (Seq<Seq<char>>, nat) {
    match position_from(names, name, 0) {
        Some(i) => (names, i),
        None => (names.push(name), names.len()),
    }
}

/// The table with one more node, and where it is.
pub open spec fn with_node(t: Table, node: IdlTypeNode) -> (Table, nat) {
    (Table { nodes: t.nodes.push(node), ..t }, t.nodes.len())
}

/// The kind of a type that is a name without parts.
pub open spec fn plain_kind(name: Seq<char>) -> Option<IdlKind> {
    if name == "bool"@ {
        Some(IdlKind::Bool)
    } else if name == "u64"@ {
        Some(IdlKind::U64)
    } else if name == "i8"@ || name == "u8"@ {
        Some(IdlKind::U8)
    } else if name == "i16"@ || name == "u16"@ || name == "i32"@ || name == "u32"@ {
        Some(IdlKind::U32)
    } else if name == "i64"@ || name == "isize"@ || name == "usize"@ {
        Some(IdlKind::U64)
    } else if name == "f32"@ {
        Some(IdlKind::F32)
    } else if name == "f64"@ {
        Some(IdlKind::F64)
    } else if name == "String"@ {
        Some(IdlKind::String)
    } else {
        None
    }
}

/// The table with a type added, and the position of its node: parts first, then
/// the whole. A name that is no known type is a struct; a struct or an enum is
/// listed by name, once.
pub open spec fn added(t: Table, ty: RustType) -> (Table, nat)
    decreases ty, 1nat,
{
    match ty.shape {
        Shape::Tuple(ts) => if ts@.len() == 2 {
            let (t0, c0) = added(t, ts@[0]);
            let (t1, c1) = added(t0, ts@[1]);
            with_node(
                t1,
                IdlTypeNode {
                    kind: IdlKind::Tuple,
                    size: 0,
                    child0: Some(c0 as usize),
                    child1: Some(c1 as usize),
                },
            )
        } else {
            with_node(t, leaf(IdlKind::Unit))
        },
        Shape::Path(ident, _, arg) => added_path(t, ident@, arg),
        Shape::Reference(mutable, elem) => match elem.shape {
            Shape::Slice(inner) => {
                let (t0, c) = added(t, *inner);
                with_node(t0, node1(IdlKind::Slice, c))
            },
            Shape::Path(ident, bare, arg) => if bare && ident@ == "str"@ {
                with_node(t, leaf(IdlKind::Str))
            } else if mutable && ident@ == "Vec"@ {
                with_node(t, leaf(IdlKind::OutVec))
            } else {
                added(t, *elem)
            },
            _ => added(t, *elem),
        },
        Shape::Array(elem, len) => {
            let (t0, c) = added(t, *elem);
            with_node(
                t0,
                IdlTypeNode {
                    kind: IdlKind::Array,
                    size: len,
                    child0: Some(c as usize),
                    child1: None,
                },
            )
        },
        _ => with_node(t, leaf(IdlKind::Unit)),
    }
}

/// The table with a named type added.
pub open spec fn added_path(t: Table, ident: Seq<char>, arg: Option<Box<RustType>>) -> (Table, nat)
    decreases arg, 0nat,
{
    if plain_kind(ident) is Some {
        with_node(t, leaf(plain_kind(ident)->Some_0))
    } else if ident == "Value"@ || ident == "ValueType"@ {
        let (enums, i) = with_name(t.enums, ident);
        with_node(Table { enums, ..t }, node1(IdlKind::Enum, i))
    } else if ident == "Option"@ || ident == "Vec"@ {
        match arg {
            Some(inner) => {
                let (t0, c) = added(t, *inner);
                with_node(
                    t0,
                    node1(
                        if ident == "Option"@ {
                            IdlKind::Option
                        } else {
                            IdlKind::Vec
                        },
                        c,
                    ),
                )
            },
            None => with_node(t, leaf(IdlKind::Unit)),
        }
    } else {
        let (structs, i) = with_name(t.structs, ident);
        with_node(Table { structs, ..t }, node1(IdlKind::Struct, i))
    }
}

/// A table in which every part stands before its whole, every enum and struct
/// node names a listed type, and no name is listed twice.
pub open spec fn wf_table(t: Table) -> bool {
    &&& forall|i: int|
        0 <= i < t.nodes.len() ==> wf_node(#[trigger] t.nodes[i], i, t.enums.len(), t.structs.len())
    &&& t.enums.no_duplicates()
    &&& t.structs.no_duplicates()
}

/// A node at position `i` whose parts stand before it.
pub open spec fn wf_node(n: IdlTypeNode, i: int, enums: nat, structs: nat) -> bool {
    &&& n.kind.has_parts() ==> n.child0 is Some && n.child0->Some_0 < i
    &&& n.kind is Tuple ==> n.child1 is Some && n.child1->Some_0 < i
    &&& n.kind is Enum ==> n.child0 is Some && n.child0->Some_0 < enums
    &&& n.kind is Struct ==> n.child0 is Some && n.child0->Some_0 < structs
}

/// `b` continues `a`: nothing that stands in `a` has moved or changed.
pub open spec fn continues(a: Table, b: Table) -> bool {
    &&& a.nodes.is_prefix_of(b.nodes)
    &&& a.enums.is_prefix_of(b.enums)
    &&& a.structs.is_prefix_of(b.structs)
}

proof fn lemma_position(names: Seq<Seq<char>>, name: Seq<char>, i: nat)
    ensures
        match position_from(names, name, i) {
            Some(p) => i <= p < names.len() && names[p as int] == name,
            None => forall|k: int| i <= k < names.len() ==> names[k] != name,
        },
    decreases names.len() - i,
{
    if i < names.len() && names[i as int] != name {
        lemma_position(names, name, i + 1);
    }
}

proof fn lemma_with_name(names: Seq<Seq<char>>, name: Seq<char>)
    requires
        names.no_duplicates(),
    ensures
        with_name(names, name).0.no_duplicates(),
        with_name(names, name).1 < with_name(names, name).0.len(),
        names.is_prefix_of(with_name(names, name).0),
        with_name(names, name).0.len() <= names.len() + 1,
{
    lemma_position(names, name, 0);
}

/// How many nodes adding a type takes at most.
pub open spec fn weight(ty: RustType) -> nat
    decreases ty, 1nat,
{
    match ty.shape {
        Shape::Tuple(ts) => if ts@.len() == 2 {
            1 + weight(ts@[0]) + weight(ts@[1])
        } else {
            1
        },
        Shape::Path(_, _, arg) => weight_arg(arg),
        Shape::Reference(_, elem) => 1 + weight(*elem),
        Shape::Slice(inner) => 1 + weight(*inner),
        Shape::Array(elem, _) => 1 + weight(*elem),
        Shape::Other => 1,
    }
}

/// How many nodes a named type takes at most.
pub open spec fn weight_arg(arg: Option<Box<RustType>>) -> nat
    decreases arg, 0nat,
{
    match arg {
        Some(inner) => 1 + weight(*inner),
        None => 1,
    }
}

/// Room for `n` more nodes and names.
pub open spec fn has_room(t: Table, n: nat) -> bool {
    &&& t.nodes.len() + n <= usize::MAX
    &&& t.enums.len() + n <= usize::MAX
    &&& t.structs.len() + n <= usize::MAX
}

/// What adding `ty` keeps: the table stays well formed, nothing in it moves,
/// the type's own node is the last, and at most `weight(ty)` places are taken.
pub open spec fn well_added(t: Table, ty: RustType, n: nat, r: (Table, nat)) -> bool {
    &&& wf_table(r.0)
    &&& continues(t, r.0)
    &&& r.1 + 1 == r.0.nodes.len()
    &&& t.nodes.len() < r.0.nodes.len() <= t.nodes.len() + n
    &&& r.0.enums.len() <= t.enums.len() + n
    &&& r.0.structs.len() <= t.structs.len() + n
}

pub(crate) proof fn lemma_with_node(t: Table, node: IdlTypeNode)
    requires
        wf_table(t),
        wf_node(node, t.nodes.len() as int, t.enums.len(), t.structs.len()),
    ensures
        wf_table(with_node(t, node).0),
        continues(t, with_node(t, node).0),
{
    let r = with_node(t, node).0;
    assert forall|i: int| 0 <= i < r.nodes.len() implies wf_node(
        #[trigger] r.nodes[i],
        i,
        r.enums.len(),
        r.structs.len(),
    ) by {
        if i < t.nodes.len() {
            assert(r.nodes[i] == t.nodes[i]);
        }
    }
}

proof fn lemma_continues(a: Table, b: Table, c: Table)
    requires
        continues(a, b),
        continues(b, c),
    ensures
        continues(a, c),
{
    assert(a.nodes.is_prefix_of(c.nodes)) by {
        assert forall|i: int| 0 <= i < a.nodes.len() implies a.nodes[i] == c.nodes[i] by {
            assert(b.nodes[i] == c.nodes[i]);
        }
    }
    assert(a.enums.is_prefix_of(c.enums)) by {
        assert forall|i: int| 0 <= i < a.enums.len() implies a.enums[i] == c.enums[i] by {
            assert(b.enums[i] == c.enums[i]);
        }
    }
    assert(a.structs.is_prefix_of(c.structs)) by {
        assert forall|i: int| 0 <= i < a.structs.len() implies a.structs[i] == c.structs[i] by {
            assert(b.structs[i] == c.structs[i]);
        }
    }
}

/// Listing a name leaves a well-formed table well formed.
proof fn lemma_listed(t: Table, name: Seq<char>)
    requires
        wf_table(t),
    ensures
        wf_table((Table { enums: with_name(t.enums, name).0, ..t })),
        wf_table((Table { structs: with_name(t.structs, name).0, ..t })),
        continues(t, (Table { enums: with_name(t.enums, name).0, ..t })),
        continues(t, (Table { structs: with_name(t.structs, name).0, ..t })),
{
    lemma_with_name(t.enums, name);
    lemma_with_name(t.structs, name);
    assert(t.nodes.is_prefix_of(t.nodes));
    assert(t.enums.is_prefix_of(t.enums));
    assert(t.structs.is_prefix_of(t.structs));
}

proof fn lemma_added_path(t: Table, ident: Seq<char>, arg: Option<Box<RustType>>)
    requires
        wf_table(t),
        has_room(t, weight_arg(arg)),
    ensures
        ({
            let r = added_path(t, ident, arg);
            &&& wf_table(r.0)
            &&& continues(t, r.0)
            &&& r.1 + 1 == r.0.nodes.len()
            &&& t.nodes.len() < r.0.nodes.len() <= t.nodes.len() + weight_arg(arg)
            &&& r.0.enums.len() <= t.enums.len() + weight_arg(arg)
            &&& r.0.structs.len() <= t.structs.len() + weight_arg(arg)
        }),
    decreases arg, 0nat,
{
    lemma_with_name(t.enums, ident);
    lemma_with_name(t.structs, ident);
    lemma_listed(t, ident);
    if plain_kind(ident) is Some {
        lemma_with_node(t, leaf(plain_kind(ident)->Some_0));
    } else if ident == "Value"@ || ident == "ValueType"@ {
        let (enums, i) = with_name(t.enums, ident);
        let t0 = Table { enums, ..t };
        lemma_with_node(t0, node1(IdlKind::Enum, i));
        lemma_continues(t, t0, with_node(t0, node1(IdlKind::Enum, i)).0);
    } else if ident == "Option"@ || ident == "Vec"@ {
        match arg {
            Some(inner) => {
                adding_keeps_table(t, *inner);
                let (t0, c) = added(t, *inner);
                let node = node1(
                    if ident == "Option"@ {
                        IdlKind::Option
                    } else {
                        IdlKind::Vec
                    },
                    c,
                );
                lemma_with_node(t0, node);
                lemma_continues(t, t0, with_node(t0, node).0);
            },
            None => lemma_with_node(t, leaf(IdlKind::Unit)),
        }
    } else {
        let (structs, i) = with_name(t.structs, ident);
        let t0 = Table { structs, ..t };
        lemma_with_node(t0, node1(IdlKind::Struct, i));
        lemma_continues(t, t0, with_node(t0, node1(IdlKind::Struct, i)).0);
    }
}

/// Adding a type keeps the table well formed: parts stand before wholes, listed
/// names stay distinct, what was there stays where it was, and the node of the
/// type is the last.
pub proof fn adding_keeps_table(t: Table, ty: RustType)
    requires
        wf_table(t),
        has_room(t, weight(ty)),
    ensures
        well_added(t, ty, weight(ty), added(t, ty)),
    decreases ty, 1nat,
{
    match ty.shape {
        Shape::Tuple(ts) => {
            if ts@.len() == 2 {
                adding_keeps_table(t, ts@[0]);
                let (t0, c0) = added(t, ts@[0]);
                adding_keeps_table(t0, ts@[1]);
                let (t1, c1) = added(t0, ts@[1]);
                let node = IdlTypeNode {
                    kind: IdlKind::Tuple,
                    size: 0,
                    child0: Some(c0 as usize),
                    child1: Some(c1 as usize),
                };
                lemma_with_node(t1, node);
                lemma_continues(t, t0, t1);
                lemma_continues(t, t1, with_node(t1, node).0);
            } else {
                lemma_with_node(t, leaf(IdlKind::Unit));
            }
        },
        Shape::Path(ident, _, arg) => lemma_added_path(t, ident@, arg),
        Shape::Reference(mutable, elem) => match elem.shape {
            Shape::Slice(inner) => {
                assert(weight(*elem) == 1 + weight(*inner));
                adding_keeps_table(t, *inner);
                let (t0, c) = added(t, *inner);
                lemma_with_node(t0, node1(IdlKind::Slice, c));
                lemma_continues(t, t0, with_node(t0, node1(IdlKind::Slice, c)).0);
            },
            Shape::Path(ident, bare, arg) => {
                if bare && ident@ == "str"@ {
                    lemma_with_node(t, leaf(IdlKind::Str));
                } else if mutable && ident@ == "Vec"@ {
                    lemma_with_node(t, leaf(IdlKind::OutVec));
                } else {
                    adding_keeps_table(t, *elem);
                }
            },
            _ => adding_keeps_table(t, *elem),
        },
        Shape::Array(elem, len) => {
            adding_keeps_table(t, *elem);
            let (t0, c) = added(t, *elem);
            let node = IdlTypeNode {
                kind: IdlKind::Array,
                size: len,
                child0: Some(c as usize),
                child1: None,
            };
            lemma_with_node(t0, node);
            lemma_continues(t, t0, with_node(t0, node).0);
        },
        _ => lemma_with_node(t, leaf(IdlKind::Unit)),
    }
}

// ---------------------------------------------------------------------------
// The builder
// ---------------------------------------------------------------------------

/// Builds a type table, type by type.
pub struct TypeTableBuilder {
    pub nodes: Vec<IdlTypeNode>,
    pub enum_type_names: Vec<String>,
    pub struct_type_names: Vec<String>,
}

impl View for TypeTableBuilder {
    type V = Table;

    open spec fn view(&self) -> Table {
        Table {
            nodes: self.nodes@,
            enums: strings_model(self.enum_type_names@),
            structs: strings_model(self.struct_type_names@),
        }
    }
}

/// The table before anything is added.
pub open spec fn empty_table() -> Table {
    Table { nodes: Seq::empty(), enums: Seq::empty(), structs: Seq::empty() }
}

pub(crate) fn list_name(names: &mut Vec<String>, name: &str) -> (r: usize)
    ensures
        strings_model(final(names)@) == with_name(strings_model(old(names)@), name@).0,
        r == with_name(strings_model(old(names)@), name@).1,
{
    let ghost m = strings_model(names@);
    let mut i: usize = 0;
    while i < names.len()
        invariant
            i <= names.len(),
            *names == *old(names),
            m == strings_model(names@),
            position_from(m, name@, 0) == position_from(m, name@, i as nat),
        decreases names.len() - i,
    {
        if same(names[i].as_str(), name) {
            return i;
        }
        i = i + 1;
    }
    let at: usize = names.len();
    names.push(String::from_str(name));
    assert(strings_model(names@) =~= m.push(name@));
    at
}

fn kind_of_name(name: &str) -> (r: Option<IdlKind>)
    ensures
        r == plain_kind(name@),
{
    if same(name, "bool") {
        Some(IdlKind::Bool)
    } else if same(name, "u64") {
        Some(IdlKind::U64)
    } else if same(name, "i8") || same(name, "u8") {
        Some(IdlKind::U8)
    } else if same(name, "i16") || same(name, "u16") || same(name, "i32") || same(name, "u32") {
        Some(IdlKind::U32)
    } else if same(name, "i64") || same(name, "isize") || same(name, "usize") {
        Some(IdlKind::U64)
    } else if same(name, "f32") {
        Some(IdlKind::F32)
    } else if same(name, "f64") {
        Some(IdlKind::F64)
    } else if same(name, "String") {
        Some(IdlKind::String)
    } else {
        None
    }
}

impl TypeTableBuilder {
    /// A builder with an empty table.
    pub fn new() -> (r: TypeTableBuilder)
        ensures
            r@ == empty_table(),
    {
        let r = TypeTableBuilder {
            nodes: Vec::new(),
            enum_type_names: Vec::new(),
            struct_type_names: Vec::new(),
        };
        assert(r@.enums =~= Seq::empty());
        assert(r@.structs =~= Seq::empty());
        r
    }

    fn push(&mut self, node: IdlTypeNode) -> (r: usize)
        ensures
            (final(self)@, r as nat) == with_node(old(self)@, node),
    {
        let at: usize = self.nodes.len();
        self.nodes.push(node);
        at
    }

    fn add_leaf(&mut self, kind: IdlKind) -> (r: usize)
        ensures
            (final(self)@, r as nat) == with_node(old(self)@, leaf(kind)),
    {
        self.push(IdlTypeNode { kind, size: 0, child0: None, child1: None })
    }

    /// Adds a node for the unit type.
    pub fn add_unit(&mut self) -> (r: usize)
        ensures
            (final(self)@, r as nat) == with_node(old(self)@, leaf(IdlKind::Unit)),
    {
        self.add_leaf(IdlKind::Unit)
    }

    /// Adds a node for the struct `name`, and lists the name unless it is.
    pub fn add_struct(&mut self, name: &str) -> (r: usize)
        ensures
            ({
                let (structs, i) = with_name(old(self)@.structs, name@);
                (final(self)@, r as nat) == with_node(
                    Table { structs, ..old(self)@ },
                    node1(IdlKind::Struct, i),
                )
            }),
    {
        let i = list_name(&mut self.struct_type_names, name);
        self.push(
            IdlTypeNode { kind: IdlKind::Struct, size: 0, child0: Some(i), child1: None },
        )
    }

    fn add_path(&mut self, ident: &str, arg: &Option<Box<RustType>>) -> (r: usize)
        ensures
            (final(self)@, r as nat) == added_path(old(self)@, ident@, *arg),
        decreases arg, 0nat,
    {
        match kind_of_name(ident) {
            Some(kind) => {
                return self.add_leaf(kind);
            },
            None => {},
        }
        if same(ident, "Value") || same(ident, "ValueType") {
            let i = list_name(&mut self.enum_type_names, ident);
            return self.push(
                IdlTypeNode { kind: IdlKind::Enum, size: 0, child0: Some(i), child1: None },
            );
        }
        let option = same(ident, "Option");
        if option || same(ident, "Vec") {
            return match arg {
                Some(inner) => {
                    let c = self.add(inner);
                    let kind = if option {
                        IdlKind::Option
                    } else {
                        IdlKind::Vec
                    };
                    self.push(IdlTypeNode { kind, size: 0, child0: Some(c), child1: None })
                },
                None => self.add_unit(),
            };
        }
        self.add_struct(ident)
    }

    /// Adds a type, parts first, and returns the position of its node.
    pub fn add(&mut self, ty: &RustType) -> (r: usize)
        ensures
            (final(self)@, r as nat) == added(old(self)@, *ty),
        decreases ty, 1nat,
    {
        match &ty.shape {
            Shape::Tuple(ts) => {
                if ts.len() == 2 {
                    let c0 = self.add(&ts[0]);
                    let c1 = self.add(&ts[1]);
                    self.push(
                        IdlTypeNode {
                            kind: IdlKind::Tuple,
                            size: 0,
                            child0: Some(c0),
                            child1: Some(c1),
                        },
                    )
                } else {
                    self.add_unit()
                }
            },
            Shape::Path(ident, _, arg) => self.add_path(ident.as_str(), arg),
            Shape::Reference(mutable, elem) => match &elem.shape {
                Shape::Slice(inner) => {
                    let c = self.add(inner);
                    self.push(
                        IdlTypeNode {
                            kind: IdlKind::Slice,
                            size: 0,
                            child0: Some(c),
                            child1: None,
                        },
                    )
                },
                Shape::Path(ident, bare, _) => {
                    if *bare && same(ident.as_str(), "str") {
                        self.add_leaf(IdlKind::Str)
                    } else if *mutable && same(ident.as_str(), "Vec") {
                        self.add_leaf(IdlKind::OutVec)
                    } else {
                        self.add(elem)
                    }
                },
                _ => self.add(elem),
            },
            Shape::Array(elem, len) => {
                let c = self.add(elem);
                self.push(
                    IdlTypeNode {
                        kind: IdlKind::Array,
                        size: *len,
                        child0: Some(c),
                        child1: None,
                    },
                )
            },
            _ => self.add_unit(),
        }
    }
}

} // verus!
