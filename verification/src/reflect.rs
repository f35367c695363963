//! Reflection: what a loaded spier says of its methods and types.
//!
//! A schema arrives as the plain values that its descriptors hold. Every enum
//! brings a type table of its own; [`parse_schema`] appends these to the
//! schema's table, so that every type has one position.
use vstd::prelude::*;
use vstd::string::StringExecFns;

use crate::text::{
    quoted, dec, decimal, hex16, hexadecimal, quote, same, short_hex, short_hexadecimal,
    strings_model,
};
use crate::typetable::IdlKind;

verus! {

// ---------------------------------------------------------------------------
// Schema data
// ---------------------------------------------------------------------------

/// A node of a type table as a spier stores it: its code, the kind that the
/// code stands for if it is a known one, and its children; -1 stands for none.
#[derive(Clone, Copy, Debug, PartialEq, Eq, Structural)]
pub struct TypeNode {
    pub code: u8,
    pub kind: Option<IdlKind>,
    pub size: u32,
    pub child0: i32,
    pub child1: i32,
}

/// A parameter of a method.
pub struct ParamInfo {
    pub name: String,
    pub type_idx: u32,
}

/// A method.
pub struct MethodInfo {
    pub name: String,
    pub params: Vec<ParamInfo>,
    pub return_type_idx: u32,
}

/// A variant as its descriptor stores it: its fields are `field_count` entries
/// of the enum's list of field types from `field_type_offset` on.
pub struct RawVariant {
    pub name: String,
    pub disc: u32,
    pub field_count: u32,
    pub field_type_offset: u32,
}

/// An enum as its descriptor stores it.
pub struct RawEnum {
    pub name: String,
    pub types: Vec<TypeNode>,
    pub field_types: Vec<u32>,
    pub variants: Vec<RawVariant>,
}

/// A schema as a spier stores it; `None` stands for a null descriptor.
pub struct RawSchema {
    pub hash: u64,
    pub types: Vec<TypeNode>,
    pub methods: Vec<MethodInfo>,
    pub struct_names: Vec<String>,
    pub enums: Vec<Option<RawEnum>>,
}

/// A variant, with the positions of its field types.
pub struct VariantInfo {
    pub name: String,
    pub disc: u32,
    pub field_type_idxs: Vec<u32>,
}

/// An enum.
pub struct EnumInfo {
    pub name: String,
    pub variants: Vec<VariantInfo>,
}

/// A schema with one type table.
pub struct SchemaData {
    pub name: String,
    pub hash: u64,
    pub types: Vec<TypeNode>,
    pub methods: Vec<MethodInfo>,
    pub struct_names: Vec<String>,
    pub enums: Vec<EnumInfo>,
}

/// The model of a [`VariantInfo`].
pub struct VariantShape {
    pub name: Seq<char>,
    pub disc: u32,
    pub fields: Seq<u32>,
}

/// The model of an [`EnumInfo`].
pub struct EnumShape {
    pub name: Seq<char>,
    pub variants: Seq<VariantShape>,
}

impl View for VariantInfo {
    type V = VariantShape;

    open spec fn view(&self) -> VariantShape {
        VariantShape { name: self.name@, disc: self.disc, fields: self.field_type_idxs@ }
    }
}

impl View for EnumInfo {
    type V = EnumShape;

    open spec fn view(&self) -> EnumShape {
        EnumShape { name: self.name@, variants: self.variants@.map_values(|v: VariantInfo| v@) }
    }
}

/// The models of a list of enums.
pub open spec fn enum_shapes(v: Seq<EnumInfo>) -> Seq<EnumShape> {
    v.map_values(|e: EnumInfo| e@)
}

// ---------------------------------------------------------------------------
// Merging the tables of the enums
// ---------------------------------------------------------------------------

/// A child reference in a table that starts at `base`; a negative one is none.
pub open spec fn moved(c: i32, base: int) -> int {
    if c >= 0 {
        c + base
    } else {
        c as int
    }
}

/// A node in a table that starts at `base`.
pub open spec fn moved_node(n: TypeNode, base: int) -> TypeNode {
    TypeNode {
        child0: moved(n.child0, base) as i32,
        child1: moved(n.child1, base) as i32,
        ..n
    }
}

/// The table after `types` has been appended to it.
pub open spec fn with_types(table: Seq<TypeNode>, types: Seq<TypeNode>) -> Seq<TypeNode> {
    table + types.map_values(|n: TypeNode| moved_node(n, table.len() as int))
}

/// The positions of a variant's field types; empty if its share of the list
/// does not lie in the list.
pub open spec fn variant_fields(flat: Seq<u32>, v: RawVariant, base: int) -> Seq<u32> {
    if v.field_type_offset + v.field_count <= flat.len() {
        flat.subrange(
            v.field_type_offset as int,
            v.field_type_offset + v.field_count,
        ).map_values(|local: u32| (base + local) as u32)
    } else {
        Seq::empty()
    }
}

/// An enum whose table starts at `base`.
pub open spec fn resolved_enum(e: RawEnum, base: int) -> EnumShape {
    EnumShape {
        name: e.name@,
        variants: e.variants@.map_values(
            |v: RawVariant|
                VariantShape {
                    name: v.name@,
                    disc: v.disc,
                    fields: variant_fields(e.field_types@, v, base),
                },
        ),
    }
}

/// The table and the enums after the first `n` descriptors.
pub open spec fn merged(types: Seq<TypeNode>, enums: Seq<Option<RawEnum>>, n: nat) -> (
    Seq<TypeNode>,
    Seq<EnumShape>,
)
    decreases n,
{
    if n == 0 {
        (types, Seq::empty())
    } else {
        let before = merged(types, enums, (n - 1) as nat);
        match enums[n - 1] {
            Some(e) => (
                with_types(before.0, e.types@),
                before.1.push(resolved_enum(e, before.0.len() as int)),
            ),
            None => before,
        }
    }
}

/// Whether the references of an enum stay in range when its table starts at
/// `base`.
pub open spec fn enum_fits(e: RawEnum, base: int) -> bool {
    &&& base + e.types@.len() <= i32::MAX
    &&& forall|i: int|
        0 <= i < e.types@.len() ==> moved((#[trigger] e.types@[i]).child0, base) <= i32::MAX
            && moved(e.types@[i].child1, base) <= i32::MAX
    &&& forall|i: int| 0 <= i < e.field_types@.len() ==> base + #[trigger] e.field_types@[i] <= i32::MAX
}

/// Whether the references of all enums stay in range.
pub open spec fn schema_fits(raw: RawSchema) -> bool {
    forall|i: int|
        #![trigger raw.enums@[i]]
        0 <= i < raw.enums@.len() && raw.enums@[i] is Some ==> enum_fits(
            raw.enums@[i]->Some_0,
            merged(raw.types@, raw.enums@, i as nat).0.len() as int,
        )
}

fn check_enum(e: &RawEnum, base: usize) -> (r: bool)
    ensures
        r == enum_fits(*e, base as int),
{
    if base > 0x7fff_ffff || e.types.len() > 0x7fff_ffff - base {
        return false;
    }
    let top: i32 = 0x7fff_ffff - base as i32;
    let mut i: usize = 0;
    while i < e.types.len()
        invariant
            i <= e.types.len(),
            top + base == i32::MAX,
            top >= 0,
            forall|k: int|
                0 <= k < i ==> moved((#[trigger] e.types@[k]).child0, base as int) <= i32::MAX
                    && moved(e.types@[k].child1, base as int) <= i32::MAX,
        decreases e.types.len() - i,
    {
        if e.types[i].child0 > top || e.types[i].child1 > top {
            assert(!(moved(e.types@[i as int].child0, base as int) <= i32::MAX && moved(
                e.types@[i as int].child1,
                base as int,
            ) <= i32::MAX));
            return false;
        }
        i = i + 1;
    }
    let mut j: usize = 0;
    while j < e.field_types.len()
        invariant
            j <= e.field_types.len(),
            top + base == i32::MAX,
            top >= 0,
            forall|k: int| 0 <= k < j ==> base + #[trigger] e.field_types@[k] <= i32::MAX,
        decreases e.field_types.len() - j,
    {
        if e.field_types[j] > top as u32 {
            assert(!(base + e.field_types@[j as int] <= i32::MAX));
            return false;
        }
        j = j + 1;
    }
    true
}

/// Whether [`parse_schema`] can merge the tables of a schema.
pub fn can_merge(raw: &RawSchema) -> (r: bool)
    ensures
        r == schema_fits(*raw),
{
    let mut base: usize = raw.types.len();
    let mut i: usize = 0;
    while i < raw.enums.len()
        invariant
            i <= raw.enums.len(),
            base == merged(raw.types@, raw.enums@, i as nat).0.len(),
            forall|k: int|
                #![trigger raw.enums@[k]]
                0 <= k < i && raw.enums@[k] is Some ==> enum_fits(
                    raw.enums@[k]->Some_0,
                    merged(raw.types@, raw.enums@, k as nat).0.len() as int,
                ),
        decreases raw.enums.len() - i,
    {
        match &raw.enums[i] {
            Some(e) => {
                if !check_enum(e, base) {
                    assert(raw.enums@[i as int] is Some);
                    return false;
                }
                base = base + e.types.len();
            },
            None => {},
        }
        i = i + 1;
    }
    true
}

fn move_child(c: i32, base: i32) -> (r: i32)
    requires
        base >= 0,
        moved(c, base as int) <= i32::MAX,
    ensures
        r == moved(c, base as int),
{
    if c >= 0 {
        c + base
    } else {
        c
    }
}

fn append_types(table: &mut Vec<TypeNode>, e: &RawEnum)
    requires
        enum_fits(*e, old(table)@.len() as int),
    ensures
        final(table)@ == with_types(old(table)@, e.types@),
{
    let ghost before = table@;
    let base: i32 = table.len() as i32;
    let mut i: usize = 0;
    assert(table@ =~= before + with_types(before, e.types@).skip(before.len() as int).take(0));
    while i < e.types.len()
        invariant
            i <= e.types.len(),
            base == before.len(),
            enum_fits(*e, before.len() as int),
            table@ == with_types(before, e.types@).take(before.len() + i),
        decreases e.types.len() - i,
    {
        let n: TypeNode = e.types[i];
        assert(n == e.types@[i as int]);
        let m = TypeNode {
            code: n.code,
            kind: n.kind,
            size: n.size,
            child0: move_child(n.child0, base),
            child1: move_child(n.child1, base),
        };
        table.push(m);
        assert(m == moved_node(n, before.len() as int));
        assert(table@ =~= with_types(before, e.types@).take(before.len() + i + 1));
        i = i + 1;
    }
    assert(table@ =~= with_types(before, e.types@));
}

fn resolve_fields(flat: &Vec<u32>, v: &RawVariant, base: i32) -> (r: Vec<u32>)
    requires
        base >= 0,
        forall|i: int| 0 <= i < flat@.len() ==> base + #[trigger] flat@[i] <= i32::MAX,
    ensures
        r@ == variant_fields(flat@, *v, base as int),
{
    let mut out: Vec<u32> = Vec::new();
    let start: u64 = v.field_type_offset as u64;
    let end: u64 = start + v.field_count as u64;
    if end <= flat.len() as u64 {
        let mut i: usize = start as usize;
        while i < end as usize
            invariant
                start <= i <= end,
                end <= flat@.len(),
                end <= usize::MAX,
                base >= 0,
                start == v.field_type_offset,
                end == v.field_type_offset + v.field_count,
                forall|k: int| 0 <= k < flat@.len() ==> base + #[trigger] flat@[k] <= i32::MAX,
                out@ == variant_fields(flat@, *v, base as int).take(i - start),
            decreases end - i,
        {
            assert(base + flat@[i as int] <= i32::MAX);
            out.push(base as u32 + flat[i]);
            assert(out@ =~= variant_fields(flat@, *v, base as int).take(i + 1 - start));
            i = i + 1;
        }
        assert(out@ =~= variant_fields(flat@, *v, base as int));
    }
    out
}

fn resolve_enum(e: &RawEnum, base: i32) -> (r: EnumInfo)
    requires
        base >= 0,
        enum_fits(*e, base as int),
    ensures
        r@ == resolved_enum(*e, base as int),
{
    let ghost all = resolved_enum(*e, base as int).variants;
    let mut variants: Vec<VariantInfo> = Vec::new();
    let mut i: usize = 0;
    assert(variants@.map_values(|v: VariantInfo| v@) =~= all.take(0));
    while i < e.variants.len()
        invariant
            i <= e.variants.len(),
            base >= 0,
            enum_fits(*e, base as int),
            all == resolved_enum(*e, base as int).variants,
            variants@.map_values(|v: VariantInfo| v@) == all.take(i as int),
        decreases e.variants.len() - i,
    {
        let v = &e.variants[i];
        let ghost before = variants@.map_values(|v: VariantInfo| v@);
        let one = VariantInfo {
            name: v.name.clone(),
            disc: v.disc,
            field_type_idxs: resolve_fields(&e.field_types, v, base),
        };
        assert(one@ == all[i as int]);
        variants.push(one);
        assert(variants@.map_values(|v: VariantInfo| v@) =~= before.push(one@));
        assert(before.push(one@) =~= all.take(i + 1));
        i = i + 1;
    }
    assert(all.take(e.variants@.len() as int) =~= all);
    EnumInfo { name: e.name.clone(), variants }
}

/// The schema under the name `name`, with the tables of its enums appended to
/// its own.
pub fn parse_schema(raw: RawSchema, name: String) -> (r: SchemaData)
    requires
        schema_fits(raw),
    ensures
        r.name == name,
        r.hash == raw.hash,
        r.methods == raw.methods,
        r.struct_names == raw.struct_names,
        (r.types@, enum_shapes(r.enums@)) == merged(raw.types@, raw.enums@, raw.enums@.len()),
{
    let ghost raw_types = raw.types@;
    let RawSchema { hash, types, methods, struct_names, enums: raw_enums } = raw;
    let mut types = types;
    let mut enums: Vec<EnumInfo> = Vec::new();
    let mut i: usize = 0;
    assert(enum_shapes(enums@) =~= Seq::empty());
    while i < raw_enums.len()
        invariant
            i <= raw_enums.len(),
            raw.enums == raw_enums,
            raw_types == raw.types@,
            schema_fits(raw),
            (types@, enum_shapes(enums@)) == merged(raw_types, raw_enums@, i as nat),
        decreases raw_enums.len() - i,
    {
        match &raw_enums[i] {
            Some(e) => {
                assert(raw.enums@[i as int] is Some);
                assert(enum_fits(*e, types@.len() as int));
                let ghost before = enum_shapes(enums@);
                let base: i32 = types.len() as i32;
                append_types(&mut types, e);
                let one = resolve_enum(e, base);
                enums.push(one);
                assert(enum_shapes(enums@) =~= before.push(one@));
            },
            None => {},
        }
        i = i + 1;
    }
    SchemaData { name, hash, types, methods, struct_names, enums }
}

/// Merging moves nothing: the schema's own types keep their positions, and so
/// do those of every enum that has been merged.
pub proof fn merging_keeps_positions(
    types: Seq<TypeNode>,
    enums: Seq<Option<RawEnum>>,
    i: nat,
    n: nat,
)
    requires
        i <= n <= enums.len(),
    ensures
        types.is_prefix_of(merged(types, enums, n).0),
        merged(types, enums, i).0.is_prefix_of(merged(types, enums, n).0),
        merged(types, enums, i).1.is_prefix_of(merged(types, enums, n).1),
    decreases n,
{
    if n > i {
        merging_keeps_positions(types, enums, i, (n - 1) as nat);
        let a = merged(types, enums, (n - 1) as nat);
        let b = merged(types, enums, n);
        assert(a.0.is_prefix_of(b.0));
        assert(a.1.is_prefix_of(b.1));
        assert(merged(types, enums, i).0.is_prefix_of(b.0)) by {
            assert(b.0.take(a.0.len() as int) =~= a.0);
        }
    } else if n > 0 {
        merging_keeps_positions(types, enums, (n - 1) as nat, (n - 1) as nat);
        let a = merged(types, enums, (n - 1) as nat);
        let b = merged(types, enums, n);
        assert(a.0.is_prefix_of(b.0));
        assert(types.is_prefix_of(b.0));
    }
}

/// A type of an enum's own table refers, after merging, to the same types: the
/// node at `base + k` is that at `k`, with its children moved by `base`.
pub proof fn merged_types_keep_meaning(table: Seq<TypeNode>, types: Seq<TypeNode>, k: int)
    requires
        0 <= k < types.len(),
        table.len() + types.len() <= i32::MAX,
        -1 <= types[k].child0 < types.len(),
        -1 <= types[k].child1 < types.len(),
    ensures
        ({
            let n = with_types(table, types)[table.len() + k];
            let t = types[k];
            &&& n.kind == t.kind && n.code == t.code && n.size == t.size
            &&& n.child0 < 0 <==> t.child0 < 0
            &&& n.child1 < 0 <==> t.child1 < 0
            &&& t.child0 >= 0 ==> with_types(table, types)[n.child0 as int] == moved_node(
                types[t.child0 as int],
                table.len() as int,
            )
            &&& t.child1 >= 0 ==> with_types(table, types)[n.child1 as int] == moved_node(
                types[t.child1 as int],
                table.len() as int,
            )
        }),
{
}

// ---------------------------------------------------------------------------
// Type names
// ---------------------------------------------------------------------------

/// The name of a kind; `?` for an unknown one.
pub open spec fn kind_text(k: Option<IdlKind>) -> Seq<char> {
    match k {
        Some(IdlKind::Unit) => "Unit"@,
        Some(IdlKind::U8) => "U8"@,
        Some(IdlKind::U32) => "U32"@,
        Some(IdlKind::U64) => "U64"@,
        Some(IdlKind::F32) => "F32"@,
        Some(IdlKind::F64) => "F64"@,
        Some(IdlKind::Array) => "Array"@,
        Some(IdlKind::Slice) => "Slice"@,
        Some(IdlKind::Str) => "Str"@,
        Some(IdlKind::Vec) => "Vec"@,
        Some(IdlKind::Option) => "Option"@,
        Some(IdlKind::Tuple) => "Tuple"@,
        Some(IdlKind::String) => "String"@,
        Some(IdlKind::Bool) => "Bool"@,
        Some(IdlKind::OutVec) => "OutVec"@,
        Some(IdlKind::Enum) => "Enum"@,
        Some(IdlKind::Struct) => "Struct"@,
        None => "?"@,
    }
}

/// The name of a kind.
pub fn kind_name(k: Option<IdlKind>) -> (r: &'static str)
    ensures
        r@ == kind_text(k),
{
    match k {
        Some(IdlKind::Unit) => "Unit",
        Some(IdlKind::U8) => "U8",
        Some(IdlKind::U32) => "U32",
        Some(IdlKind::U64) => "U64",
        Some(IdlKind::F32) => "F32",
        Some(IdlKind::F64) => "F64",
        Some(IdlKind::Array) => "Array",
        Some(IdlKind::Slice) => "Slice",
        Some(IdlKind::Str) => "Str",
        Some(IdlKind::Vec) => "Vec",
        Some(IdlKind::Option) => "Option",
        Some(IdlKind::Tuple) => "Tuple",
        Some(IdlKind::String) => "String",
        Some(IdlKind::Bool) => "Bool",
        Some(IdlKind::OutVec) => "OutVec",
        Some(IdlKind::Enum) => "Enum",
        Some(IdlKind::Struct) => "Struct",
        None => "?",
    }
}

/// The name of struct `i`; `?` if there is none.
pub open spec fn struct_text(names: Seq<String>, i: int) -> Seq<char> {
    if 0 <= i < names.len() {
        names[i]@
    } else {
        "?"@
    }
}

/// The text of a type, read through at most `depth` types inside one another;
/// `None` if it lies deeper.
pub open spec fn type_text(
    types: Seq<TypeNode>,
    names: Seq<String>,
    idx: int,
    depth: nat,
) -> Option<Seq<char>>
    decreases depth,
{
    if depth == 0 {
        None
    } else if !(0 <= idx < types.len()) {
        Some("?"@)
    } else {
        let t = types[idx];
        let name = kind_text(t.kind);
        if t.kind == Some(IdlKind::Struct) && t.child0 >= 0 {
            Some("Struct<"@ + struct_text(names, t.child0 as int) + ">"@)
        } else {
            let a = type_text(types, names, t.child0 as int, (depth - 1) as nat);
            let b = type_text(types, names, t.child1 as int, (depth - 1) as nat);
            if t.child0 >= 0 && a is None || t.child1 >= 0 && b is None {
                None
            } else if t.child0 >= 0 && t.child1 >= 0 {
                Some(name + "<"@ + a->Some_0 + ", "@ + b->Some_0 + ">"@)
            } else if t.child0 >= 0 {
                Some(name + "<"@ + a->Some_0 + ">"@)
            } else if t.child1 >= 0 {
                Some(name + "<"@ + b->Some_0 + ">"@)
            } else {
                Some(name)
            }
        }
    }
}

/// The text of a type; `None` if the table leads from it in a circle.
pub open spec fn type_str(types: Seq<TypeNode>, names: Seq<String>, idx: int) -> Option<Seq<char>> {
    type_text(types, names, idx, types.len() + 1)
}

fn write_type(data: &SchemaData, idx: usize, depth: usize) -> (r: Option<String>)
    ensures
        match r {
            Some(s) => type_text(
                data.types@,
                data.struct_names@,
                idx as int,
                depth as nat + 1,
            ) == Some(s@),
            None => type_text(
                data.types@,
                data.struct_names@,
                idx as int,
                depth as nat + 1,
            ) is None,
        },
    decreases depth,
{
    if idx >= data.types.len() {
        return Some(String::from_str("?"));
    }
    let t: TypeNode = data.types[idx];
    let name = kind_name(t.kind);
    let is_struct = match t.kind {
        Some(IdlKind::Struct) => true,
        _ => false,
    };
    if is_struct && t.child0 >= 0 {
        let s = if (t.child0 as u64) < data.struct_names.len() as u64 {
            data.struct_names[t.child0 as usize].as_str()
        } else {
            "?"
        };
        return Some(String::from_str("Struct<").concat(s).concat(">"));
    }
    if t.child0 < 0 && t.child1 < 0 {
        return Some(String::from_str(name));
    }
    if depth == 0 {
        proof {
            reveal_with_fuel(type_text, 2);
        }
        return None;
    }
    let mut out = String::from_str(name).concat("<");
    if t.child0 >= 0 {
        match write_type(data, t.child0 as usize, depth - 1) {
            Some(a) => {
                out = out.concat(a.as_str());
            },
            None => {
                return None;
            },
        }
    }
    if t.child1 >= 0 {
        match write_type(data, t.child1 as usize, depth - 1) {
            Some(b) => {
                if t.child0 >= 0 {
                    out = out.concat(", ");
                }
                out = out.concat(b.as_str());
            },
            None => {
                return None;
            },
        }
    }
    Some(out.concat(">"))
}

/// The text of a type, such as `Vec<U8>`; `None` if the table leads from it in
/// a circle.
pub fn schema_type_str(data: &SchemaData, idx: u32) -> (r: Option<String>)
    ensures
        match r {
            Some(s) => type_str(data.types@, data.struct_names@, idx as int) == Some(s@),
            None => type_str(data.types@, data.struct_names@, idx as int) is None,
        },
{
    let n: usize = data.types.len();
    write_type(data, idx as usize, n)
}

/// Whether every part of a type stands before it, up to position `n`.
pub open spec fn parts_first(types: Seq<TypeNode>, n: int) -> bool {
    forall|i: int|
        0 <= i < n && i < types.len() && (#[trigger] types[i]).kind != Some(IdlKind::Struct)
            ==> types[i].child0 < i && types[i].child1 < i
}

/// Every type has a text in a table in which parts stand before wholes.
pub proof fn ordered_types_have_text(
    types: Seq<TypeNode>,
    names: Seq<String>,
    idx: int,
    depth: nat,
)
    requires
        0 <= idx < types.len(),
        parts_first(types, types.len() as int),
        forall|i: int|
            0 <= i < types.len() && (#[trigger] types[i]).kind == Some(IdlKind::Struct)
                ==> types[i].child0 >= 0,
        depth > idx,
    ensures
        type_text(types, names, idx, depth) is Some,
        depth == types.len() + 1 ==> type_str(types, names, idx) is Some,
    decreases depth,
{
    let t = types[idx];
    if t.kind != Some(IdlKind::Struct) {
        if t.child0 >= 0 {
            ordered_types_have_text(types, names, t.child0 as int, (depth - 1) as nat);
        }
        if t.child1 >= 0 {
            ordered_types_have_text(types, names, t.child1 as int, (depth - 1) as nat);
        }
    }
}

/// The struct that a type is: its position in the list of struct names.
pub open spec fn struct_id(types: Seq<TypeNode>, idx: int) -> Option<i32> {
    if 0 <= idx < types.len() && types[idx].kind == Some(IdlKind::Struct) && types[idx].child0 >= 0 {
        Some(types[idx].child0)
    } else {
        None
    }
}

/// The struct that a type is.
pub fn struct_id_at(data: &SchemaData, idx: u32) -> (r: Option<i32>)
    ensures
        r == struct_id(data.types@, idx as int),
{
    if idx as u64 >= data.types.len() as u64 {
        return None;
    }
    let t: TypeNode = data.types[idx as usize];
    match t.kind {
        Some(IdlKind::Struct) => {
            if t.child0 >= 0 {
                Some(t.child0)
            } else {
                None
            }
        },
        _ => None,
    }
}

/// The name of the struct that a type is; `OpaqueValue` if it has none.
pub open spec fn struct_name(types: Seq<TypeNode>, names: Seq<String>, idx: int) -> Seq<char> {
    match struct_id(types, idx) {
        Some(i) => if i < names.len() {
            names[i as int]@
        } else {
            "OpaqueValue"@
        },
        None => "OpaqueValue"@,
    }
}

/// The name of the struct that a type is.
pub fn struct_name_at(data: &SchemaData, idx: u32) -> (r: String)
    ensures
        r@ == struct_name(data.types@, data.struct_names@, idx as int),
{
    match struct_id_at(data, idx) {
        Some(i) => {
            if (i as u64) < data.struct_names.len() as u64 {
                data.struct_names[i as usize].clone()
            } else {
                String::from_str("OpaqueValue")
            }
        },
        None => String::from_str("OpaqueValue"),
    }
}

// ---------------------------------------------------------------------------
// Methods
// ---------------------------------------------------------------------------

/// The position of the first method called `name`, from `i` on.
pub open spec fn method_from(ms: Seq<MethodInfo>, name: Seq<char>, i: nat) -> Option<nat>
    decreases ms.len() - i,
{
    if i >= ms.len() {
        None
    } else if ms[i as int].name@ == name {
        Some(i)
    } else {
        method_from(ms, name, i + 1)
    }
}

/// The position of a method, or the message that there is none.
pub fn find_method(data: &SchemaData, name: &str) -> (r: Result<usize, String>)
    ensures
        match r {
            Ok(i) => method_from(data.methods@, name@, 0) == Some(i as nat) && i
                < data.methods@.len(),
            Err(e) => method_from(data.methods@, name@, 0) is None && e@ == "unknown method: "@
                + name@,
        },
{
    let mut i: usize = 0;
    while i < data.methods.len()
        invariant
            i <= data.methods.len(),
            method_from(data.methods@, name@, 0) == method_from(data.methods@, name@, i as nat),
        decreases data.methods.len() - i,
    {
        if same(data.methods[i].name.as_str(), name) {
            return Ok(i);
        }
        i = i + 1;
    }
    Err(String::from_str("unknown method: ").concat(name))
}

/// The texts of the first `n` parameters; `None` if one has no text.
pub open spec fn param_texts(
    types: Seq<TypeNode>,
    names: Seq<String>,
    ps: Seq<ParamInfo>,
    n: nat,
) -> Option<Seq<char>>
    decreases n,
{
    if n == 0 {
        Some(Seq::empty())
    } else {
        match (
            param_texts(types, names, ps, (n - 1) as nat),
            type_str(types, names, ps[n - 1].type_idx as int),
        ) {
            (Some(before), Some(ty)) => {
                let one = ps[n - 1].name@ + ": "@ + ty;
                if n == 1 {
                    Some(one)
                } else {
                    Some(before + ", "@ + one)
                }
            },
            _ => None,
        }
    }
}

/// The signature of a method, such as `len(data: Slice<U8>) -> Result<U64, String>`.
pub open spec fn method_text(
    types: Seq<TypeNode>,
    names: Seq<String>,
    m: MethodInfo,
) -> Option<Seq<char>> {
    match (
        param_texts(types, names, m.params@, m.params@.len()),
        type_str(types, names, m.return_type_idx as int),
    ) {
        (Some(params), Some(ret)) => Some(
            m.name@ + "("@ + params + ") -> Result<"@ + ret + ", String>"@,
        ),
        _ => None,
    }
}

fn write_params(data: &SchemaData, ps: &Vec<ParamInfo>) -> (r: Option<String>)
    ensures
        match r {
            Some(s) => param_texts(data.types@, data.struct_names@, ps@, ps@.len()) == Some(s@),
            None => param_texts(data.types@, data.struct_names@, ps@, ps@.len()) is None,
        },
{
    let ghost types = data.types@;
    let ghost names = data.struct_names@;
    let mut out = String::new();
    assert(out@ =~= Seq::empty());
    let mut i: usize = 0;
    while i < ps.len()
        invariant
            i <= ps.len(),
            types == data.types@,
            names == data.struct_names@,
            param_texts(types, names, ps@, i as nat) == Some(out@),
        decreases ps.len() - i,
    {
        match schema_type_str(data, ps[i].type_idx) {
            Some(ty) => {
                let one = ps[i].name.clone().concat(": ").concat(ty.as_str());
                if i == 0 {
                    out = one;
                } else {
                    out = out.concat(", ").concat(one.as_str());
                }
            },
            None => {
                proof {
                    lemma_no_params(types, names, ps@, (i + 1) as nat, ps@.len());
                }
                return None;
            },
        }
        i = i + 1;
    }
    Some(out)
}

proof fn lemma_no_params(
    types: Seq<TypeNode>,
    names: Seq<String>,
    ps: Seq<ParamInfo>,
    i: nat,
    n: nat,
)
    requires
        i <= n,
        param_texts(types, names, ps, i) is None,
    ensures
        param_texts(types, names, ps, n) is None,
    decreases n,
{
    if i < n {
        lemma_no_params(types, names, ps, i, (n - 1) as nat);
    }
}

/// The signature of a method: an error if there is none of that name, `None` if
/// the table leads from one of its types in a circle.
pub fn method_sig(data: &SchemaData, name: &str) -> (r: Result<Option<String>, String>)
    ensures
        match method_from(data.methods@, name@, 0) {
            Some(i) => match method_text(data.types@, data.struct_names@, data.methods@[i as int]) {
                Some(text) => r is Ok && r->Ok_0 is Some && r->Ok_0->Some_0@ == text,
                None => r == Ok::<Option<String>, String>(None),
            },
            None => r is Err && r->Err_0@ == "unknown method: "@ + name@,
        },
{
    let i = match find_method(data, name) {
        Ok(i) => i,
        Err(e) => {
            return Err(e);
        },
    };
    let m = &data.methods[i];
    let params = write_params(data, &m.params);
    let ret = schema_type_str(data, m.return_type_idx);
    match (params, ret) {
        (Some(p), Some(t)) => Ok(
            Some(
                m.name.clone().concat("(").concat(p.as_str()).concat(") -> Result<").concat(
                    t.as_str(),
                ).concat(", String>"),
            ),
        ),
        _ => Ok(None),
    }
}

// ---------------------------------------------------------------------------
// Types and enums
// ---------------------------------------------------------------------------

/// The node of a type, or the message that there is none.
pub fn type_at(data: &SchemaData, type_idx: u32) -> (r: Result<TypeNode, String>)
    ensures
        match r {
            Ok(t) => type_idx < data.types@.len() && t == data.types@[type_idx as int],
            Err(e) => type_idx >= data.types@.len() && e@ == "type index "@ + dec(type_idx as nat)
                + " out of range"@,
        },
{
    if (type_idx as u64) < data.types.len() as u64 {
        Ok(data.types[type_idx as usize])
    } else {
        Err(
            String::from_str("type index ").concat(decimal(type_idx as u64).as_str()).concat(
                " out of range",
            ),
        )
    }
}

/// The position of the first enum called `name`, from `i` on.
pub open spec fn enum_from(es: Seq<EnumInfo>, name: Seq<char>, i: nat) -> Option<nat>
    decreases es.len() - i,
{
    if i >= es.len() {
        None
    } else if es[i as int].name@ == name {
        Some(i)
    } else {
        enum_from(es, name, i + 1)
    }
}

/// The names of an enum's variants.
pub open spec fn variant_names(e: EnumInfo) -> Seq<Seq<char>> {
    e.variants@.map_values(|v: VariantInfo| v.name@)
}

fn list_variants(e: &EnumInfo) -> (r: Vec<String>)
    ensures
        strings_model(r@) == variant_names(*e),
{
    let mut out: Vec<String> = Vec::new();
    let mut i: usize = 0;
    assert(strings_model(out@) =~= variant_names(*e).take(0));
    while i < e.variants.len()
        invariant
            i <= e.variants.len(),
            strings_model(out@) == variant_names(*e).take(i as int),
        decreases e.variants.len() - i,
    {
        let ghost before = strings_model(out@);
        out.push(e.variants[i].name.clone());
        assert(strings_model(out@) =~= before.push(e.variants@[i as int].name@));
        assert(strings_model(out@) =~= variant_names(*e).take(i + 1));
        i = i + 1;
    }
    assert(strings_model(out@) =~= variant_names(*e));
    out
}

/// The variants of the enum called `name`, or the message that there is none.
pub fn enum_by_name(data: &SchemaData, name: &str) -> (r: Result<Vec<String>, String>)
    ensures
        match enum_from(data.enums@, name@, 0) {
            Some(i) => r is Ok && strings_model(r->Ok_0@) == variant_names(data.enums@[i as int]),
            None => r is Err && r->Err_0@ == "unknown enum: "@ + name@,
        },
{
    let mut i: usize = 0;
    while i < data.enums.len()
        invariant
            i <= data.enums.len(),
            enum_from(data.enums@, name@, 0) == enum_from(data.enums@, name@, i as nat),
        decreases data.enums.len() - i,
    {
        if same(data.enums[i].name.as_str(), name) {
            return Ok(list_variants(&data.enums[i]));
        }
        i = i + 1;
    }
    Err(String::from_str("unknown enum: ").concat(name))
}

/// Whether `name` is among `variants`; the message if it is not.
pub fn check_variant(variants: &Vec<String>, name: &str) -> (r: Result<(), String>)
    ensures
        r is Ok <==> strings_model(variants@).contains(name@),
        r is Err ==> r->Err_0@ == "enum has no variant "@ + quoted(name@),
{
    let ghost m = strings_model(variants@);
    let mut i: usize = 0;
    while i < variants.len()
        invariant
            i <= variants.len(),
            m == strings_model(variants@),
            forall|k: int| 0 <= k < i ==> #[trigger] m[k] != name@,
        decreases variants.len() - i,
    {
        if same(variants[i].as_str(), name) {
            assert(m[i as int] == name@);
            return Ok(());
        }
        i = i + 1;
    }
    Err(String::from_str("enum has no variant ").concat(quote(name).as_str()))
}

// ---------------------------------------------------------------------------
// Texts for display
// ---------------------------------------------------------------------------

/// The first `n` names, separated by commas.
pub open spec fn name_list(names: Seq<Seq<char>>, n: nat) -> Seq<char>
    decreases n,
{
    if n == 0 {
        Seq::empty()
    } else if n == 1 {
        names[0]
    } else {
        name_list(names, (n - 1) as nat) + ", "@ + names[n - 1]
    }
}

fn join_names(names: &Vec<String>) -> (r: String)
    ensures
        r@ == name_list(strings_model(names@), names@.len()),
{
    let mut out = String::new();
    assert(out@ =~= Seq::empty());
    let mut i: usize = 0;
    while i < names.len()
        invariant
            i <= names.len(),
            out@ == name_list(strings_model(names@), i as nat),
        decreases names.len() - i,
    {
        if i == 0 {
            out = names[0].clone();
        } else {
            out = out.concat(", ").concat(names[i].as_str());
        }
        i = i + 1;
    }
    out
}

/// How a loaded spier is shown.
pub fn lib_repr(name: &str, hash: u64) -> (r: String)
    ensures
        r@ == "<SpierLib "@ + name@ + " hash=0x"@ + hex16(hash) + ">"@,
{
    String::from_str("<SpierLib ")
        .concat(name)
        .concat(" hash=0x")
        .concat(hexadecimal(hash).as_str())
        .concat(">")
}

/// How the variants of an enum are shown.
pub fn enum_class_repr(variants: &Vec<String>) -> (r: String)
    ensures
        r@ == "<SpierEnumClass ["@ + name_list(strings_model(variants@), variants@.len()) + "]>"@,
{
    String::from_str("<SpierEnumClass [").concat(join_names(variants).as_str()).concat("]>")
}

/// How an enum is shown.
pub fn enum_schema_repr(name: &str, variants: &Vec<String>) -> (r: String)
    ensures
        r@ == "<SpierEnumSchema "@ + quoted(name@) + " ["@ + name_list(
            strings_model(variants@),
            variants@.len(),
        ) + "]>"@,
{
    String::from_str("<SpierEnumSchema ").concat(quote(name).as_str()).concat(" [").concat(
        join_names(variants).as_str(),
    ).concat("]>")
}

/// How an opaque value is shown: its struct name and its address.
pub fn opaque_repr(data: &SchemaData, type_idx: u32, ptr: u64) -> (r: String)
    ensures
        r@ == "<"@ + struct_name(data.types@, data.struct_names@, type_idx as int) + " 0x"@
            + short_hex(ptr as nat) + ">"@,
{
    String::from_str("<").concat(struct_name_at(data, type_idx).as_str()).concat(" 0x").concat(
        short_hexadecimal(ptr).as_str(),
    ).concat(">")
}

/// How an enum value is shown: its variant and its fields.
pub fn enum_value_repr(variant: &str, fields: &str) -> (r: String)
    ensures
        r@ == "SpierEnumValue("@ + quoted(variant@) + ", "@ + fields@ + ")"@,
{
    String::from_str("SpierEnumValue(").concat(quote(variant).as_str()).concat(", ").concat(
        fields,
    ).concat(")")
}

} // verus!
