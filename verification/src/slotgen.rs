//! Expansion of the macros on enums and structs that cross the boundary: how
//! their values are laid out in slots.
use vstd::prelude::*;
use vstd::string::StringExecFns;

use crate::expand::{gen_node_lines, node_lines};
use crate::text::{dec, decimal, signed_dec, signed_decimal};
use crate::typetable::{
    added, adding_keeps_table, empty_table, has_room, weight, wf_table, RustType, Table,
    TypeTableBuilder,
};

verus! {

// ---------------------------------------------------------------------------
// What the macros parse
// ---------------------------------------------------------------------------

/// A field of a variant; it has a name where the variant's fields are named.
pub struct FieldItem {
    pub ident: Option<String>,
    pub ty: RustType,
}

/// The fields of a variant.
pub enum VariantFields {
    Unit,
    Unnamed(Vec<FieldItem>),
    Named(Vec<FieldItem>),
}

/// A variant: its name, its discriminant if one is written as an integer
/// literal, and its fields.
pub struct VariantItem {
    pub name: String,
    pub explicit: Option<i64>,
    pub fields: VariantFields,
}

/// A type to expand: its text, its name and its generics.
pub struct TypeItem {
    pub text: String,
    pub name: String,
    pub impl_generics: String,
    pub ty_generics: String,
    pub where_clause: String,
}

/// The fields of a variant as a list.
pub open spec fn field_seq(fields: VariantFields) -> Seq<FieldItem> {
    match fields {
        VariantFields::Unit => Seq::empty(),
        VariantFields::Unnamed(fs) => fs@,
        VariantFields::Named(fs) => fs@,
    }
}

// ---------------------------------------------------------------------------
// Discriminants
// ---------------------------------------------------------------------------

/// The discriminant of variant `i`: the one written there, else one more than
/// that of the variant before it, else 0.
pub open spec fn discriminant(vs: Seq<VariantItem>, i: int) -> int
    decreases i,
{
    match vs[i].explicit {
        Some(n) => n as int,
        None => if i <= 0 {
            0
        } else {
            discriminant(vs, i - 1) + 1
        },
    }
}

/// Whether every discriminant has a successor among the 64-bit integers.
pub open spec fn discriminants_fit(vs: Seq<VariantItem>) -> bool {
    forall|i: int| 0 <= i < vs.len() ==> #[trigger] discriminant(vs, i) < i64::MAX
}

/// Whether [`extract_discriminants`] can number the variants.
pub fn can_number(vs: &Vec<VariantItem>) -> (r: bool)
    ensures
        r == discriminants_fit(vs@),
{
    let mut next: i64 = 0;
    let mut i: usize = 0;
    while i < vs.len()
        invariant
            i <= vs.len(),
            next == if i == 0 {
                0
            } else {
                discriminant(vs@, i - 1) + 1
            },
            forall|k: int| 0 <= k < i ==> #[trigger] discriminant(vs@, k) < i64::MAX,
        decreases vs.len() - i,
    {
        let disc: i64 = match vs[i].explicit {
            Some(n) => n,
            None => next,
        };
        assert(disc == discriminant(vs@, i as int));
        if disc == i64::MAX {
            return false;
        }
        next = disc + 1;
        i = i + 1;
    }
    true
}

/// The discriminants of the variants.
pub fn extract_discriminants(vs: &Vec<VariantItem>) -> (r: Vec<i64>)
    requires
        discriminants_fit(vs@),
    ensures
        r@.len() == vs@.len(),
        forall|i: int| 0 <= i < vs@.len() ==> #[trigger] r@[i] == discriminant(vs@, i),
{
    let mut discs: Vec<i64> = Vec::new();
    let mut next: i64 = 0;
    let mut i: usize = 0;
    while i < vs.len()
        invariant
            i <= vs.len(),
            discriminants_fit(vs@),
            discs@.len() == i,
            forall|k: int| 0 <= k < i ==> #[trigger] discs@[k] == discriminant(vs@, k),
            next == if i == 0 {
                0
            } else {
                discriminant(vs@, i - 1) + 1
            },
        decreases vs.len() - i,
    {
        let disc: i64 = match vs[i].explicit {
            Some(n) => n,
            None => next,
        };
        assert(disc == discriminant(vs@, i as int));
        discs.push(disc);
        next = disc + 1;
        i = i + 1;
    }
    discs
}

/// Without written discriminants the variants are numbered from 0.
pub proof fn implicit_discriminants_count(vs: Seq<VariantItem>, i: int)
    requires
        0 <= i < vs.len(),
        forall|k: int| 0 <= k <= i ==> (#[trigger] vs[k]).explicit is None,
    ensures
        discriminant(vs, i) == i,
    decreases i,
{
    assert(vs[i].explicit is None);
    if i > 0 {
        implicit_discriminants_count(vs, i - 1);
    }
}

// ---------------------------------------------------------------------------
// Codec impls
// ---------------------------------------------------------------------------

/// What an arm writes for each field.
#[derive(Clone, Copy, PartialEq, Eq, Structural)]
pub enum PerField {
    RefBinding,
    Binding,
    Encode,
    Return,
    Decode,
    Receive,
}

/// The name that a field is bound to in a pattern.
pub open spec fn binding(named: bool, f: FieldItem, i: nat) -> Seq<char> {
    if named {
        match f.ident {
            Some(s) => s@,
            None => Seq::empty(),
        }
    } else {
        "f"@ + dec(i)
    }
}

/// The text for field `i`.
pub open spec fn field_text(what: PerField, named: bool, f: FieldItem, i: nat) -> Seq<char> {
    let n = binding(named, f, i);
    let ty = f.ty.text@;
    let label = if named {
        n + ": "@
    } else {
        Seq::empty()
    };
    match what {
        PerField::RefBinding => "ref "@ + n,
        PerField::Binding => n,
        PerField::Encode => "            <"@
            + ty
            + " as dynspire::slots::SlotEncode>::encode("@
            + n
            + ", w);\n"@,
        PerField::Return => "            <"@
            + ty
            + " as dynspire::slots::SlotReturn>::into_slots("@
            + n
            + ", w);\n"@,
        PerField::Decode => label + ("<"@ + ty + " as dynspire::slots::SlotDecode>::decode(r)"@),
        PerField::Receive => label + ("<"@
            + ty
            + " as dynspire::slots::SlotReceive>::from_slots(r)"@),
    }
}

/// Whether the texts for the fields are statements, not items of a list.
pub open spec fn is_statement(what: PerField) -> bool {
    what is Encode || what is Return
}

/// The texts for the first `n` fields.
pub open spec fn field_list(what: PerField, named: bool, fs: Seq<FieldItem>, n: nat) -> Seq<char>
    decreases n,
{
    if n == 0 {
        Seq::empty()
    } else {
        let before = field_list(what, named, fs, (n - 1) as nat);
        let one = field_text(what, named, fs[n - 1], (n - 1) as nat);
        if n == 1 {
            one
        } else if is_statement(what) {
            before + one
        } else {
            before + ", "@ + one
        }
    }
}

fn gen_field(what: PerField, named: bool, f: &FieldItem, i: usize) -> (r: String)
    ensures
        r@ == field_text(what, named, *f, i as nat),
{
    let n = if named {
        match &f.ident {
            Some(s) => s.clone(),
            None => {
                let none = String::new();
                assert(none@ =~= Seq::empty());
                none
            },
        }
    } else {
        String::from_str("f").concat(decimal(i as u64).as_str())
    };
    assert(n@ == binding(named, *f, i as nat));
    let ty = f.ty.text.as_str();
    let label = if named {
        n.clone().concat(": ")
    } else {
        String::new()
    };
    assert(label@ =~= if named {
        n@ + ": "@
    } else {
        Seq::empty()
    });
    match what {
        PerField::RefBinding => String::from_str("ref ").concat(n.as_str()),
        PerField::Binding => n,
        PerField::Encode => String::from_str("            <")
            .concat(ty)
            .concat(" as dynspire::slots::SlotEncode>::encode(")
            .concat(n.as_str())
            .concat(", w);\n"),
        PerField::Return => String::from_str("            <")
            .concat(ty)
            .concat(" as dynspire::slots::SlotReturn>::into_slots(")
            .concat(n.as_str())
            .concat(", w);\n"),
        PerField::Decode => label.concat((String::from_str("<")
            .concat(ty)
            .concat(" as dynspire::slots::SlotDecode>::decode(r)")).as_str()),
        PerField::Receive => label.concat((String::from_str("<")
            .concat(ty)
            .concat(" as dynspire::slots::SlotReceive>::from_slots(r)")).as_str()),
    }
}

fn gen_field_list(what: PerField, named: bool, fs: &Vec<FieldItem>) -> (r: String)
    ensures
        r@ == field_list(what, named, fs@, fs@.len()),
{
    let mut out = String::new();
    assert(out@ =~= Seq::empty());
    let mut i: usize = 0;
    while i < fs.len()
        invariant
            i <= fs.len(),
            out@ == field_list(what, named, fs@, i as nat),
        decreases fs.len() - i,
    {
        let one = gen_field(what, named, &fs[i], i);
        if i == 0 {
            out = one;
        } else {
            let statement = match what {
                PerField::Encode => true,
                PerField::Return => true,
                _ => false,
            };
            if statement {
                out = out.concat(one.as_str());
            } else {
                out = out.concat(", ").concat(one.as_str());
            }
        }
        i = i + 1;
    }
    out
}

/// The four directions in which a value crosses the boundary.
#[derive(Clone, Copy, PartialEq, Eq, Structural)]
pub enum Direction {
    Encode,
    Decode,
    Return,
    Receive,
}

/// Whether a direction writes slots.
pub open spec fn writes(dir: Direction) -> bool {
    dir is Encode || dir is Return
}

/// What the arms of a direction write for each field: in the pattern, and
/// in the body.
pub open spec fn field_parts(dir: Direction) -> (PerField, PerField) {
    match dir {
        Direction::Encode => (PerField::RefBinding, PerField::Encode),
        Direction::Return => (PerField::Binding, PerField::Return),
        Direction::Decode => (PerField::Binding, PerField::Decode),
        Direction::Receive => (PerField::Binding, PerField::Receive),
    }
}

/// The arm for a variant. A writer puts the discriminant and then the fields,
/// in order; a reader takes the fields in the same order.
pub open spec fn arm(dir: Direction, en: Seq<char>, tg: Seq<char>, v: VariantItem, d: int) -> Seq<
    char,
> {
    let vn = v.name@;
    let disc = signed_dec(d);
    let (pattern, body) = field_parts(dir);
    match v.fields {
        VariantFields::Unit => if writes(dir) {
            "            "@ + en + tg + "::"@ + vn + " => { w.write_u64("@ + disc + "); }\n"@
        } else {
            "            "@ + disc + " => "@ + en + tg + "::"@ + vn + ",\n"@
        },
        VariantFields::Unnamed(fs) => if writes(dir) {
            let bindings = field_list(pattern, false, fs@, fs@.len());
            let stmts = field_list(body, false, fs@, fs@.len());
            "            "@
                + en
                + tg
                + "::"@
                + vn
                + "("@
                + bindings
                + ") => {\n                w.write_u64("@
                + disc
                + ");\n"@
                + stmts
                + "            }\n"@
        } else {
            let values = field_list(body, false, fs@, fs@.len());
            "            "@ + disc + " => "@ + en + tg + "::"@ + vn + "("@ + values + "),\n"@
        },
        VariantFields::Named(fs) => if writes(dir) {
            let bindings = field_list(pattern, true, fs@, fs@.len());
            let stmts = field_list(body, true, fs@, fs@.len());
            "            "@
                + en
                + tg
                + "::"@
                + vn
                + " { "@
                + bindings
                + " } => {\n                w.write_u64("@
                + disc
                + ");\n"@
                + stmts
                + "            }\n"@
        } else {
            let values = field_list(body, true, fs@, fs@.len());
            "            "@ + disc + " => "@ + en + tg + "::"@ + vn + " { "@ + values + " },\n"@
        },
    }
}

/// The arms for the first `n` variants.
pub open spec fn arm_list(
    dir: Direction,
    en: Seq<char>,
    tg: Seq<char>,
    vs: Seq<VariantItem>,
    n: nat,
) -> Seq<char>
    decreases n,
{
    if n == 0 {
        Seq::empty()
    } else {
        arm_list(dir, en, tg, vs, (n - 1) as nat) + arm(
            dir,
            en,
            tg,
            vs[n - 1],
            discriminant(vs, n - 1),
        )
    }
}

fn gen_arm(dir: Direction, en: &str, tg: &str, v: &VariantItem, d: i64) -> (r: String)
    ensures
        r@ == arm(dir, en@, tg@, *v, d as int),
{
    let vn = v.name.as_str();
    let disc = signed_decimal(d);
    let (pattern, body) = match dir {
        Direction::Encode => (PerField::RefBinding, PerField::Encode),
        Direction::Return => (PerField::Binding, PerField::Return),
        Direction::Decode => (PerField::Binding, PerField::Decode),
        Direction::Receive => (PerField::Binding, PerField::Receive),
    };
    let write = match dir {
        Direction::Encode => true,
        Direction::Return => true,
        _ => false,
    };
    match &v.fields {
        VariantFields::Unit => {
            if write {
                String::from_str("            ")
                    .concat(en)
                    .concat(tg)
                    .concat("::")
                    .concat(vn)
                    .concat(" => { w.write_u64(")
                    .concat(disc.as_str())
                    .concat("); }\n")
            } else {
                String::from_str("            ")
                    .concat(disc.as_str())
                    .concat(" => ")
                    .concat(en)
                    .concat(tg)
                    .concat("::")
                    .concat(vn)
                    .concat(",\n")
            }
        },
        VariantFields::Unnamed(fs) => {
            if write {
                let bindings = gen_field_list(pattern, false, fs);
                let stmts = gen_field_list(body, false, fs);
                String::from_str("            ")
                    .concat(en)
                    .concat(tg)
                    .concat("::")
                    .concat(vn)
                    .concat("(")
                    .concat(bindings.as_str())
                    .concat(") => {\n                w.write_u64(")
                    .concat(disc.as_str())
                    .concat(");\n")
                    .concat(stmts.as_str())
                    .concat("            }\n")
            } else {
                let values = gen_field_list(body, false, fs);
                String::from_str("            ")
                    .concat(disc.as_str())
                    .concat(" => ")
                    .concat(en)
                    .concat(tg)
                    .concat("::")
                    .concat(vn)
                    .concat("(")
                    .concat(values.as_str())
                    .concat("),\n")
            }
        },
        VariantFields::Named(fs) => {
            if write {
                let bindings = gen_field_list(pattern, true, fs);
                let stmts = gen_field_list(body, true, fs);
                String::from_str("            ")
                    .concat(en)
                    .concat(tg)
                    .concat("::")
                    .concat(vn)
                    .concat(" { ")
                    .concat(bindings.as_str())
                    .concat(" } => {\n                w.write_u64(")
                    .concat(disc.as_str())
                    .concat(");\n")
                    .concat(stmts.as_str())
                    .concat("            }\n")
            } else {
                let values = gen_field_list(body, true, fs);
                String::from_str("            ")
                    .concat(disc.as_str())
                    .concat(" => ")
                    .concat(en)
                    .concat(tg)
                    .concat("::")
                    .concat(vn)
                    .concat(" { ")
                    .concat(values.as_str())
                    .concat(" },\n")
            }
        },
    }
}

fn gen_arm_list(
    dir: Direction,
    en: &str,
    tg: &str,
    vs: &Vec<VariantItem>,
    discs: &Vec<i64>,
) -> (r: String)
    requires
        discs@.len() == vs@.len(),
        forall|i: int| 0 <= i < vs@.len() ==> #[trigger] discs@[i] == discriminant(vs@, i),
    ensures
        r@ == arm_list(dir, en@, tg@, vs@, vs@.len()),
{
    let mut out = String::new();
    assert(out@ =~= Seq::empty());
    let mut i: usize = 0;
    while i < vs.len()
        invariant
            i <= vs.len(),
            discs@.len() == vs@.len(),
            forall|k: int| 0 <= k < vs@.len() ==> #[trigger] discs@[k] == discriminant(vs@, k),
            out@ == arm_list(dir, en@, tg@, vs@, i as nat),
        decreases vs.len() - i,
    {
        let one = gen_arm(dir, en, tg, &vs[i], discs[i]);
        out = out.concat(one.as_str());
        i = i + 1;
    }
    out
}

// ---------------------------------------------------------------------------
// Enum descriptor
// ---------------------------------------------------------------------------

/// The table after the types of the first `n` fields, and their positions in it.
pub open spec fn field_positions(t: Table, fs: Seq<FieldItem>, n: nat) -> (Table, Seq<nat>)
    decreases n,
{
    if n == 0 {
        (t, Seq::empty())
    } else {
        let before = field_positions(t, fs, (n - 1) as nat);
        let (t1, idx) = added(before.0, fs[n - 1].ty);
        (t1, before.1.push(idx))
    }
}

/// A discriminant in 32 bits.
pub open spec fn low32(d: int) -> nat {
    (d % 0x1_0000_0000) as nat
}

/// The type table of an enum, the positions of all field types in it, and the
/// entries of the first `n` variants. The fields of a variant are the
/// `field_count` positions from `field_type_offset` on.
pub open spec fn variant_entries(vs: Seq<VariantItem>, n: nat) -> (Table, Seq<nat>, Seq<char>)
    decreases n,
{
    if n == 0 {
        (empty_table(), Seq::empty(), Seq::empty())
    } else {
        let before = variant_entries(vs, (n - 1) as nat);
        let fs = field_seq(vs[n - 1].fields);
        let (t1, idxs) = field_positions(before.0, fs, fs.len());
        let vn = vs[n - 1].name@;
        let disc = low32(discriminant(vs, n - 1));
        let count = fs.len();
        let offset = before.1.len();
        (t1, before.1 + idxs, before.2 + ("    dynspire::ffi::EnumVariantDesc {\n        disc: "@
            + dec(disc as nat)
            + ",\n        name: b\""@
            + vn
            + "\\0\".as_ptr(),\n        name_len: \""@
            + vn
            + "\".len(),\n        field_count: "@
            + dec(count as nat)
            + ",\n        field_type_offset: "@
            + dec(offset as nat)
            + r#",
    },
"#@))
    }
}

/// The first `n` numbers, separated by commas.
pub open spec fn number_list(ns: Seq<nat>, n: nat) -> Seq<char>
    decreases n,
{
    if n == 0 {
        Seq::empty()
    } else if n == 1 {
        dec(ns[0])
    } else {
        number_list(ns, (n - 1) as nat) + ", "@ + dec(ns[n - 1])
    }
}

/// The numbers of a list.
pub open spec fn nats(v: Seq<usize>) -> Seq<nat> {
    Seq::new(v.len(), |i: int| v[i] as nat)
}

fn gen_number_list(ns: &Vec<usize>) -> (r: String)
    ensures
        r@ == number_list(nats(ns@), ns@.len()),
{
    let mut out = String::new();
    assert(out@ =~= Seq::empty());
    let mut i: usize = 0;
    while i < ns.len()
        invariant
            i <= ns.len(),
            out@ == number_list(nats(ns@), i as nat),
        decreases ns.len() - i,
    {
        if i == 0 {
            out = decimal(ns[0] as u64);
        } else {
            out = out.concat(", ").concat(decimal(ns[i] as u64).as_str());
        }
        i = i + 1;
    }
    out
}

fn truncate_disc(d: i64) -> (r: u64)
    ensures
        r == low32(d as int),
{
    if d >= 0 {
        (d as u64) % 0x1_0000_0000
    } else {
        let m: u64 = ((-(d + 1)) as u64) % 0x1_0000_0000;
        0xffff_ffff - m
    }
}

fn add_fields(table: &mut TypeTableBuilder, idxs: &mut Vec<usize>, fs: &Vec<FieldItem>)
    ensures
        final(table)@ == field_positions(old(table)@, fs@, fs@.len()).0,
        nats(final(idxs)@) == nats(old(idxs)@) + field_positions(old(table)@, fs@, fs@.len()).1,
{
    let ghost t = table@;
    let ghost before = nats(idxs@);
    let mut i: usize = 0;
    assert(nats(idxs@) =~= before + field_positions(t, fs@, 0).1);
    while i < fs.len()
        invariant
            i <= fs.len(),
            table@ == field_positions(t, fs@, i as nat).0,
            nats(idxs@) == before + field_positions(t, fs@, i as nat).1,
        decreases fs.len() - i,
    {
        let ghost now = nats(idxs@);
        let idx = table.add(&fs[i].ty);
        idxs.push(idx);
        assert(nats(idxs@) =~= now.push(idx as nat));
        assert(nats(idxs@) =~= before + field_positions(t, fs@, (i + 1) as nat).1);
        i = i + 1;
    }
}

struct Entries {
    table: TypeTableBuilder,
    idxs: Vec<usize>,
    text: String,
}

fn gen_variant_entries(vs: &Vec<VariantItem>, discs: &Vec<i64>) -> (r: Entries)
    requires
        discs@.len() == vs@.len(),
        forall|i: int| 0 <= i < vs@.len() ==> #[trigger] discs@[i] == discriminant(vs@, i),
    ensures
        (r.table@, nats(r.idxs@), r.text@) == variant_entries(vs@, vs@.len()),
{
    let mut table = TypeTableBuilder::new();
    let mut idxs: Vec<usize> = Vec::new();
    let mut text = String::new();
    assert(text@ =~= Seq::empty());
    assert(nats(idxs@) =~= Seq::empty());
    let mut i: usize = 0;
    while i < vs.len()
        invariant
            i <= vs.len(),
            discs@.len() == vs@.len(),
            forall|k: int| 0 <= k < vs@.len() ==> #[trigger] discs@[k] == discriminant(vs@, k),
            (table@, nats(idxs@), text@) == variant_entries(vs@, i as nat),
        decreases vs.len() - i,
    {
        let vn = vs[i].name.as_str();
        let disc: u64 = truncate_disc(discs[i]);
        let offset: usize = idxs.len();
        let ghost t0 = table@;
        let ghost i0 = nats(idxs@);
        let count: usize = match &vs[i].fields {
            VariantFields::Unit => 0,
            VariantFields::Unnamed(fs) => {
                add_fields(&mut table, &mut idxs, fs);
                fs.len()
            },
            VariantFields::Named(fs) => {
                add_fields(&mut table, &mut idxs, fs);
                fs.len()
            },
        };
        assert(nats(idxs@) =~= i0 + field_positions(
            t0,
            field_seq(vs@[i as int].fields),
            count as nat,
        ).1);
        let entry = String::from_str("    dynspire::ffi::EnumVariantDesc {\n        disc: ")
            .concat(decimal(disc as u64).as_str())
            .concat(",\n        name: b\"")
            .concat(vn)
            .concat("\\0\".as_ptr(),\n        name_len: \"")
            .concat(vn)
            .concat("\".len(),\n        field_count: ")
            .concat(decimal(count as u64).as_str())
            .concat(",\n        field_type_offset: ")
            .concat(decimal(offset as u64).as_str())
            .concat(r#",
    },
"#);
        text = text.concat(entry.as_str());
        i = i + 1;
    }
    Entries { table, idxs, text }
}

/// How many nodes the first `n` fields take at most.
pub open spec fn fields_weight(fs: Seq<FieldItem>, n: nat) -> nat
    decreases n,
{
    if n == 0 {
        0
    } else {
        fields_weight(fs, (n - 1) as nat) + weight(fs[n - 1].ty)
    }
}

/// How many nodes the first `n` variants take at most.
pub open spec fn variants_weight(vs: Seq<VariantItem>, n: nat) -> nat
    decreases n,
{
    if n == 0 {
        0
    } else {
        let fs = field_seq(vs[n - 1].fields);
        variants_weight(vs, (n - 1) as nat) + fields_weight(fs, fs.len())
    }
}

/// The type table of an enum's descriptor is well formed, every field position
/// lies in it, and the variants' shares of the position list follow one
/// another without gaps.
pub proof fn descriptor_is_well_formed(vs: Seq<VariantItem>, n: nat)
    requires
        n <= vs.len(),
        variants_weight(vs, n) <= usize::MAX,
    ensures
        wf_table(variant_entries(vs, n).0),
        forall|i: int|
            0 <= i < variant_entries(vs, n).1.len() ==> #[trigger] variant_entries(vs, n).1[i]
                < variant_entries(vs, n).0.nodes.len(),
        n > 0 ==> variant_entries(vs, n).1.len() == variant_entries(vs, (n - 1) as nat).1.len()
            + field_seq(vs[n - 1].fields).len(),
        n > 0 ==> variant_entries(vs, (n - 1) as nat).1.is_prefix_of(variant_entries(vs, n).1),
        fits(empty_table(), variant_entries(vs, n).0, variants_weight(vs, n)),
    decreases n,
{
    if n > 0 {
        descriptor_is_well_formed(vs, (n - 1) as nat);
        let before = variant_entries(vs, (n - 1) as nat);
        let fs = field_seq(vs[n - 1].fields);
        lemma_positions(before.0, fs, fs.len());
        assert(before.1.is_prefix_of(variant_entries(vs, n).1));
    }
}

/// `b` holds at most `n` nodes and names more than `a`.
pub open spec fn fits(a: Table, b: Table, n: nat) -> bool {
    &&& a.nodes.len() <= b.nodes.len() <= a.nodes.len() + n
    &&& b.enums.len() <= a.enums.len() + n
    &&& b.structs.len() <= a.structs.len() + n
}

proof fn lemma_positions(t: Table, fs: Seq<FieldItem>, n: nat)
    requires
        n <= fs.len(),
        wf_table(t),
        has_room(t, fields_weight(fs, n)),
    ensures
        wf_table(field_positions(t, fs, n).0),
        fits(t, field_positions(t, fs, n).0, fields_weight(fs, n)),
        field_positions(t, fs, n).1.len() == n,
        forall|i: int|
            0 <= i < n ==> #[trigger] field_positions(t, fs, n).1[i] < field_positions(
                t,
                fs,
                n,
            ).0.nodes.len(),
    decreases n,
{
    if n > 0 {
        lemma_positions(t, fs, (n - 1) as nat);
        adding_keeps_table(field_positions(t, fs, (n - 1) as nat).0, fs[n - 1].ty);
    }
}

// ---------------------------------------------------------------------------
// Enum macro
// ---------------------------------------------------------------------------

/// The enum and its codecs.
pub open spec fn enum_codecs(item: TypeItem, vs: Seq<VariantItem>) -> Seq<char> {
    let text = item.text@;
    let en = item.name@;
    let ig = item.impl_generics@;
    let tg = item.ty_generics@;
    let wc = item.where_clause@;
    let encode = arm_list(Direction::Encode, en, tg, vs, vs.len());
    let decode = arm_list(Direction::Decode, en, tg, vs, vs.len());
    let give = arm_list(Direction::Return, en, tg, vs, vs.len());
    let receive = arm_list(Direction::Receive, en, tg, vs, vs.len());
    text
        + r#"

impl"#@
        + ig
        + " dynspire::slots::SlotEncode for "@
        + en
        + tg
        + " "@
        + wc
        + r#" {
    fn encode(&self, w: &mut dynspire::slots::SlotWriter) {
        match self {
"#@
        + encode
        + r#"        }
    }
}

impl"#@
        + ig
        + " dynspire::slots::SlotDecode<'_> for "@
        + en
        + tg
        + " "@
        + wc
        + r#" {
    unsafe fn decode(r: &mut dynspire::slots::SlotReader<'_>) -> Self {
        match r.read_u64() {
"#@
        + decode
        + "            _ => panic!(\"invalid discriminant for {}\", stringify!("@
        + en
        + r#")),
        }
    }
}

impl"#@
        + ig
        + " dynspire::slots::SlotReturn for "@
        + en
        + tg
        + " "@
        + wc
        + r#" {
    fn into_slots(self, w: &mut dynspire::slots::SlotWriter) {
        match self {
"#@
        + give
        + r#"        }
    }
}

impl"#@
        + ig
        + " dynspire::slots::SlotReceive for "@
        + en
        + tg
        + " "@
        + wc
        + r#" {
    unsafe fn from_slots(r: &mut dynspire::slots::SlotReader) -> Self {
        match r.read_u64() {
"#@
        + receive
        + "            _ => panic!(\"invalid discriminant for {}\", stringify!("@
        + en
        + r#")),
        }
    }
}

"#@
}

/// The enum's descriptor.
pub open spec fn enum_descriptor(item: TypeItem, vs: Seq<VariantItem>) -> Seq<char> {
    let en = item.name@;
    let ig = item.impl_generics@;
    let tg = item.ty_generics@;
    let wc = item.where_clause@;
    let (table, idxs, entries) = variant_entries(vs, vs.len());
    let nodes = node_lines(table.nodes, table.nodes.len());
    let indices = number_list(idxs, idxs.len());
    let variant_count = vs.len();
    let type_count = table.nodes.len();
    let field_type_count = idxs.len();
    "#[doc(hidden)]\npub static __SLOT_ENUM_TYPES_"@
        + en
        + ": &[dynspire::ffi::IdlTypeNode] = &[\n"@
        + nodes
        + r#"];

#[doc(hidden)]
pub static __SLOT_ENUM_FIELD_TYPES_"#@
        + en
        + ": &[u32] = &["@
        + indices
        + r#"];

#[doc(hidden)]
pub static __SLOT_ENUM_VARIANTS_"#@
        + en
        + ": &[dynspire::ffi::EnumVariantDesc] = &[\n"@
        + entries
        + r#"];

#[doc(hidden)]
pub static __SLOT_ENUM_DESCRIPTOR_"#@
        + en
        + ": dynspire::ffi::EnumDescriptor = dynspire::ffi::EnumDescriptor {\n    name: b\""@
        + en
        + "\\0\".as_ptr(),\n    name_len: \""@
        + en
        + "\".len(),\n    variant_count: "@
        + dec(variant_count as nat)
        + ",\n    variants: __SLOT_ENUM_VARIANTS_"@
        + en
        + ".as_ptr(),\n    type_table: __SLOT_ENUM_TYPES_"@
        + en
        + ".as_ptr(),\n    type_count: "@
        + dec(type_count as nat)
        + ",\n    field_types: __SLOT_ENUM_FIELD_TYPES_"@
        + en
        + ".as_ptr(),\n    field_type_count: "@
        + dec(field_type_count as nat)
        + r#",
};

impl"#@
        + ig
        + " dynspire::slots::SlotEnumDescriptor for "@
        + en
        + tg
        + " "@
        + wc
        + r#" {
    fn descriptor() -> &'static dynspire::ffi::EnumDescriptor {
        &__SLOT_ENUM_DESCRIPTOR_"#@
        + en
        + r#"
    }
}
"#@
}

fn gen_enum_codecs(item: &TypeItem, vs: &Vec<VariantItem>, discs: &Vec<i64>) -> (r: String)
    requires
        discs@.len() == vs@.len(),
        forall|i: int| 0 <= i < vs@.len() ==> #[trigger] discs@[i] == discriminant(vs@, i),
    ensures
        r@ == enum_codecs(*item, vs@),
{
    let text = item.text.as_str();
    let en = item.name.as_str();
    let ig = item.impl_generics.as_str();
    let tg = item.ty_generics.as_str();
    let wc = item.where_clause.as_str();
    let encode = gen_arm_list(Direction::Encode, en, tg, vs, discs);
    let decode = gen_arm_list(Direction::Decode, en, tg, vs, discs);
    let give = gen_arm_list(Direction::Return, en, tg, vs, discs);
    let receive = gen_arm_list(Direction::Receive, en, tg, vs, discs);
    String::from_str(text)
        .concat(r#"

impl"#)
        .concat(ig)
        .concat(" dynspire::slots::SlotEncode for ")
        .concat(en)
        .concat(tg)
        .concat(" ")
        .concat(wc)
        .concat(r#" {
    fn encode(&self, w: &mut dynspire::slots::SlotWriter) {
        match self {
"#)
        .concat(encode.as_str())
        .concat(r#"        }
    }
}

impl"#)
        .concat(ig)
        .concat(" dynspire::slots::SlotDecode<'_> for ")
        .concat(en)
        .concat(tg)
        .concat(" ")
        .concat(wc)
        .concat(r#" {
    unsafe fn decode(r: &mut dynspire::slots::SlotReader<'_>) -> Self {
        match r.read_u64() {
"#)
        .concat(decode.as_str())
        .concat("            _ => panic!(\"invalid discriminant for {}\", stringify!(")
        .concat(en)
        .concat(r#")),
        }
    }
}

impl"#)
        .concat(ig)
        .concat(" dynspire::slots::SlotReturn for ")
        .concat(en)
        .concat(tg)
        .concat(" ")
        .concat(wc)
        .concat(r#" {
    fn into_slots(self, w: &mut dynspire::slots::SlotWriter) {
        match self {
"#)
        .concat(give.as_str())
        .concat(r#"        }
    }
}

impl"#)
        .concat(ig)
        .concat(" dynspire::slots::SlotReceive for ")
        .concat(en)
        .concat(tg)
        .concat(" ")
        .concat(wc)
        .concat(r#" {
    unsafe fn from_slots(r: &mut dynspire::slots::SlotReader) -> Self {
        match r.read_u64() {
"#)
        .concat(receive.as_str())
        .concat("            _ => panic!(\"invalid discriminant for {}\", stringify!(")
        .concat(en)
        .concat(r#")),
        }
    }
}

"#)
}

/// Expands the enum macro: the enum, its four codec impls and its descriptor.
pub fn slot_enum(item: &TypeItem, vs: &Vec<VariantItem>) -> (r: String)
    requires
        discriminants_fit(vs@),
    ensures
        r@ == enum_codecs(*item, vs@) + enum_descriptor(*item, vs@),
{
    let discs = extract_discriminants(vs);
    let codecs = gen_enum_codecs(item, vs, &discs);
    let en = item.name.as_str();
    let ig = item.impl_generics.as_str();
    let tg = item.ty_generics.as_str();
    let wc = item.where_clause.as_str();
    let desc = gen_variant_entries(vs, &discs);
    let entries = desc.text.as_str();
    let nodes = gen_node_lines(&desc.table.nodes);
    let indices = gen_number_list(&desc.idxs);
    let variant_count: usize = vs.len();
    let type_count: usize = desc.table.nodes.len();
    let field_type_count: usize = desc.idxs.len();
    let descriptor = String::from_str("#[doc(hidden)]\npub static __SLOT_ENUM_TYPES_")
        .concat(en)
        .concat(": &[dynspire::ffi::IdlTypeNode] = &[\n")
        .concat(nodes.as_str())
        .concat(r#"];

#[doc(hidden)]
pub static __SLOT_ENUM_FIELD_TYPES_"#)
        .concat(en)
        .concat(": &[u32] = &[")
        .concat(indices.as_str())
        .concat(r#"];

#[doc(hidden)]
pub static __SLOT_ENUM_VARIANTS_"#)
        .concat(en)
        .concat(": &[dynspire::ffi::EnumVariantDesc] = &[\n")
        .concat(entries)
        .concat(r#"];

#[doc(hidden)]
pub static __SLOT_ENUM_DESCRIPTOR_"#)
        .concat(en)
        .concat(": dynspire::ffi::EnumDescriptor = dynspire::ffi::EnumDescriptor {\n    name: b\"")
        .concat(en)
        .concat("\\0\".as_ptr(),\n    name_len: \"")
        .concat(en)
        .concat("\".len(),\n    variant_count: ")
        .concat(decimal(variant_count as u64).as_str())
        .concat(",\n    variants: __SLOT_ENUM_VARIANTS_")
        .concat(en)
        .concat(".as_ptr(),\n    type_table: __SLOT_ENUM_TYPES_")
        .concat(en)
        .concat(".as_ptr(),\n    type_count: ")
        .concat(decimal(type_count as u64).as_str())
        .concat(",\n    field_types: __SLOT_ENUM_FIELD_TYPES_")
        .concat(en)
        .concat(".as_ptr(),\n    field_type_count: ")
        .concat(decimal(field_type_count as u64).as_str())
        .concat(r#",
};

impl"#)
        .concat(ig)
        .concat(" dynspire::slots::SlotEnumDescriptor for ")
        .concat(en)
        .concat(tg)
        .concat(" ")
        .concat(wc)
        .concat(r#" {
    fn descriptor() -> &'static dynspire::ffi::EnumDescriptor {
        &__SLOT_ENUM_DESCRIPTOR_"#)
        .concat(en)
        .concat(r#"
    }
}
"#);
    codecs.concat(descriptor.as_str())
}

// ---------------------------------------------------------------------------
// Struct macro
// ---------------------------------------------------------------------------

/// What the struct macro produces: a struct crosses as one pointer.
pub open spec fn struct_codecs(item: TypeItem) -> Seq<char> {
    let text = item.text@;
    let sn = item.name@;
    let ig = item.impl_generics@;
    let tg = item.ty_generics@;
    let wc = item.where_clause@;
    text
        + r#"

impl"#@
        + ig
        + " dynspire::slots::SlotEncode for "@
        + sn
        + tg
        + " "@
        + wc
        + r#" {
    fn encode(&self, w: &mut dynspire::slots::SlotWriter) {
        w.write_u64(self as *const Self as u64);
    }
}

impl"#@
        + ig
        + " dynspire::slots::SlotDecode<'_> for "@
        + sn
        + tg
        + " "@
        + wc
        + r#" {
    unsafe fn decode(r: &mut dynspire::slots::SlotReader<'_>) -> Self {
        let ptr = r.read_u64() as *const Self;
        (*ptr).clone()
    }
}

impl"#@
        + ig
        + " dynspire::slots::SlotReturn for "@
        + sn
        + tg
        + " "@
        + wc
        + r#" {
    fn into_slots(self, w: &mut dynspire::slots::SlotWriter) {
        w.write_u64(Box::into_raw(Box::new(self)) as u64);
    }
}

impl"#@
        + ig
        + " dynspire::slots::SlotReceive for "@
        + sn
        + tg
        + " "@
        + wc
        + r#" {
    unsafe fn from_slots(r: &mut dynspire::slots::SlotReader) -> Self {
        *Box::from_raw(r.read_u64() as *mut Self)
    }
}
"#@
}

/// Expands the struct macro: the struct and its four codec impls.
pub fn slot_struct(item: &TypeItem) -> (r: String)
    ensures
        r@ == struct_codecs(*item),
{
    let text = item.text.as_str();
    let sn = item.name.as_str();
    let ig = item.impl_generics.as_str();
    let tg = item.ty_generics.as_str();
    let wc = item.where_clause.as_str();
    String::from_str(text)
        .concat(r#"

impl"#)
        .concat(ig)
        .concat(" dynspire::slots::SlotEncode for ")
        .concat(sn)
        .concat(tg)
        .concat(" ")
        .concat(wc)
        .concat(r#" {
    fn encode(&self, w: &mut dynspire::slots::SlotWriter) {
        w.write_u64(self as *const Self as u64);
    }
}

impl"#)
        .concat(ig)
        .concat(" dynspire::slots::SlotDecode<'_> for ")
        .concat(sn)
        .concat(tg)
        .concat(" ")
        .concat(wc)
        .concat(r#" {
    unsafe fn decode(r: &mut dynspire::slots::SlotReader<'_>) -> Self {
        let ptr = r.read_u64() as *const Self;
        (*ptr).clone()
    }
}

impl"#)
        .concat(ig)
        .concat(" dynspire::slots::SlotReturn for ")
        .concat(sn)
        .concat(tg)
        .concat(" ")
        .concat(wc)
        .concat(r#" {
    fn into_slots(self, w: &mut dynspire::slots::SlotWriter) {
        w.write_u64(Box::into_raw(Box::new(self)) as u64);
    }
}

impl"#)
        .concat(ig)
        .concat(" dynspire::slots::SlotReceive for ")
        .concat(sn)
        .concat(tg)
        .concat(" ")
        .concat(wc)
        .concat(r#" {
    unsafe fn from_slots(r: &mut dynspire::slots::SlotReader) -> Self {
        *Box::from_raw(r.read_u64() as *mut Self)
    }
}
"#)
}

} // verus!
