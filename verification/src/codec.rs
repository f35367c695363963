//! The slot codecs that generated Rust code carries inline.
//!
//! For every type of the IDL there are four: a borrowed value is written as an
//! input and decoded by the spier, an owned value is written as a return and
//! received by the host. Each is a piece of Rust source.
use vstd::prelude::*;
use vstd::string::StringExecFns;

use crate::ast::{
    decls_model, types_model, Decl, EnumDecl, EnumModel, FieldType, StructDecl, Ty, TypeDecl,
    VariantModel,
};
use crate::text::{dec, decimal, same};

verus! {

// ---------------------------------------------------------------------------
// Declared types
// ---------------------------------------------------------------------------

/// The first declaration of `name` at or after position `i`.
pub open spec fn find_from(types: Seq<Decl>, name: Seq<char>, i: nat) -> Option<Decl>
    decreases types.len() - i,
{
    if i >= types.len() {
        None
    } else if types[i as int].name() == name {
        Some(types[i as int])
    } else {
        find_from(types, name, i + 1)
    }
}

/// The declaration of `name`.
pub open spec fn lookup(types: Seq<Decl>, name: Seq<char>) -> Option<Decl> {
    find_from(types, name, 0)
}

proof fn lemma_found_is_declared(types: Seq<Decl>, name: Seq<char>, i: nat)
    ensures
        find_from(types, name, i) matches Some(d) ==> types.contains(d) && d.name() == name,
        find_from(types, name, i) is None ==> forall|k: int|
            i <= k < types.len() ==> (#[trigger] types[k]).name() != name,
    decreases types.len() - i,
{
    if i < types.len() && types[i as int].name() != name {
        lemma_found_is_declared(types, name, i + 1);
    }
}

/// A name is found exactly if it is declared, and what is found is a
/// declaration of that name.
pub proof fn lookup_finds_declared(types: Seq<Decl>, name: Seq<char>)
    ensures
        lookup(types, name) is Some <==> exists|k: int|
            0 <= k < types.len() && (#[trigger] types[k]).name() == name,
        lookup(types, name) matches Some(d) ==> types.contains(d) && d.name() == name,
{
    lemma_found_is_declared(types, name, 0);
}

/// The declaration of `name`, if there is one.
pub fn find_type<'a>(types: &'a [TypeDecl], name: &str) -> (r: Option<&'a TypeDecl>)
    ensures
        match r {
            Some(d) => lookup(decls_model(types@), name@) == Some(d@),
            None => lookup(decls_model(types@), name@) is None,
        },
{
    let ghost m = decls_model(types@);
    let mut i: usize = 0;
    while i < types.len()
        invariant
            i <= types.len(),
            m == decls_model(types@),
            lookup(m, name@) == find_from(m, name@, i as nat),
        decreases types.len() - i,
    {
        if same(types[i].name(), name) {
            return Some(&types[i]);
        }
        i = i + 1;
    }
    None
}

// ---------------------------------------------------------------------------
// Which types own heap buffers
// ---------------------------------------------------------------------------

/// Whether a field of type `ft` holds a heap buffer, looking through named
/// types to nesting `depth`; `None` if the nesting goes deeper. Native strings
/// and vectors are laid out as managed ones.
pub open spec fn field_dynamic(ft: Ty, types: Seq<Decl>, depth: nat) -> Option<bool>
    decreases depth, ft, 0nat,
{
    match ft {
        Ty::DString | Ty::String => Some(true),
        Ty::DVec(_) | Ty::Vec(_) => Some(true),
        Ty::DOption(inner) => field_dynamic(*inner, types, depth),
        Ty::Option(inner) => field_dynamic(*inner, types, depth),
        Ty::Named(name) => match lookup(types, name) {
            None => Some(false),
            Some(Decl::Opaque(_)) => Some(false),
            Some(d) => if depth == 0 {
                None
            } else {
                any_dynamic(flat_fields(d), flat_fields(d).len(), types, (depth - 1) as nat)
            },
        },
        _ => Some(false),
    }
}

/// Whether one of the last `n` of `fs` holds a heap buffer. The fields are
/// looked at in order, and none after the first that does.
pub open spec fn any_dynamic(fs: Seq<Ty>, n: nat, types: Seq<Decl>, depth: nat) -> Option<bool>
    decreases depth, fs, n,
{
    if n == 0 || n > fs.len() {
        Some(false)
    } else {
        match field_dynamic(fs[fs.len() - n], types, depth) {
            None => None,
            Some(true) => Some(true),
            Some(false) => any_dynamic(fs, (n - 1) as nat, types, depth),
        }
    }
}

/// The types of the first `n` fields.
pub open spec fn field_types(fs: Seq<(Seq<char>, Ty)>) -> Seq<Ty> {
    Seq::new(fs.len(), |i: int| fs[i].1)
}

/// The fields of the first `n` variants, in order.
pub open spec fn variant_fields(vs: Seq<VariantModel>, n: nat) -> Seq<Ty>
    decreases n,
{
    if n == 0 {
        Seq::empty()
    } else {
        variant_fields(vs, (n - 1) as nat) + vs[n - 1].fields
    }
}

/// The types of all fields of a declaration, in order.
pub open spec fn flat_fields(d: Decl) -> Seq<Ty> {
    match d {
        Decl::Struct(s) => field_types(s.fields),
        Decl::Enum(e) => variant_fields(e.variants, e.variants.len()),
        Decl::Opaque(_) => Seq::empty(),
    }
}

/// Whether a declared type holds a heap buffer in one of its fields; `None` if
/// it holds itself by value.
pub open spec fn decl_dynamic(d: Decl, types: Seq<Decl>) -> Option<bool> {
    any_dynamic(flat_fields(d), flat_fields(d).len(), types, types.len())
}

/// For every declared type it is settled whether it holds a heap buffer.
pub open spec fn settled(types: Seq<Decl>) -> bool {
    forall|i: int| 0 <= i < types.len() ==> decl_dynamic(#[trigger] types[i], types) is Some
}

/// Whether a field of type `ft` holds a heap buffer.
pub fn field_has_dynamic(ft: &FieldType, types: &[TypeDecl], depth: usize) -> (r: Option<bool>)
    ensures
        r == field_dynamic(ft@, decls_model(types@), depth as nat),
    decreases 2 * depth, ft,
{
    match ft {
        FieldType::DString | FieldType::String => Some(true),
        FieldType::DVec(_) | FieldType::Vec(_) => Some(true),
        FieldType::DOption(inner) => field_has_dynamic(inner, types, depth),
        FieldType::Option(inner) => field_has_dynamic(inner, types, depth),
        FieldType::Named(name) => match find_type(types, name.as_str()) {
            None => Some(false),
            Some(TypeDecl::Opaque(_)) => Some(false),
            Some(TypeDecl::Struct(s)) => {
                if depth == 0 {
                    None
                } else {
                    struct_has_dynamic_fields(s, types, depth - 1)
                }
            },
            Some(TypeDecl::Enum(e)) => {
                if depth == 0 {
                    None
                } else {
                    enum_has_dynamic_fields(e, types, depth - 1)
                }
            },
        },
        _ => Some(false),
    }
}

impl FieldType {
    /// Whether this type, as the type of a field, holds a heap buffer that a
    /// `drop_fn` has to release: a string, a vector, or a declared struct or
    /// enum that contains one.
    pub fn has_dynamic_fields(&self, types: &[TypeDecl]) -> (r: bool)
        requires
            field_dynamic(self@, decls_model(types@), types@.len()) is Some,
        ensures
            r == (field_dynamic(self@, decls_model(types@), types@.len()) == Some(true)),
    {
        match field_has_dynamic(self, types, types.len()) {
            Some(b) => b,
            None => false,
        }
    }
}

/// Whether a field of the struct holds a heap buffer.
pub fn struct_has_dynamic_fields(s: &StructDecl, types: &[TypeDecl], depth: usize) -> (r: Option<
    bool,
>)
    ensures
        r == any_dynamic(
            flat_fields(Decl::Struct(s@)),
            flat_fields(Decl::Struct(s@)).len(),
            decls_model(types@),
            depth as nat,
        ),
    decreases 2 * depth + 1, s,
{
    let ghost m = decls_model(types@);
    let ghost fs = flat_fields(Decl::Struct(s@));
    let mut i: usize = 0;
    while i < s.fields.len()
        invariant
            i <= s.fields.len(),
            m == decls_model(types@),
            fs == flat_fields(Decl::Struct(s@)),
            any_dynamic(fs, fs.len(), m, depth as nat) == any_dynamic(
                fs,
                (fs.len() - i) as nat,
                m,
                depth as nat,
            ),
        decreases s.fields.len() - i,
    {
        assert(fs[i as int] == s.fields@[i as int].1@);
        match field_has_dynamic(&s.fields[i].1, types, depth) {
            None => {
                return None;
            },
            Some(true) => {
                return Some(true);
            },
            Some(false) => {},
        }
        i = i + 1;
    }
    Some(false)
}

proof fn lemma_variant_fields_step(vs: Seq<VariantModel>, n: nat, k: nat)
    requires
        k < n <= vs.len(),
    ensures
        variant_fields(vs, k + 1).len() <= variant_fields(vs, n).len(),
        forall|j: int|
            0 <= j < vs[k as int].fields.len() ==> #[trigger] variant_fields(vs, n)[variant_fields(
                vs,
                k,
            ).len() + j] == vs[k as int].fields[j],
    decreases n,
{
    if k + 1 < n {
        lemma_variant_fields_step(vs, (n - 1) as nat, k);
    }
}

/// Whether a field of a variant of the enum holds a heap buffer.
pub fn enum_has_dynamic_fields(e: &EnumDecl, types: &[TypeDecl], depth: usize) -> (r: Option<bool>)
    ensures
        r == any_dynamic(
            flat_fields(Decl::Enum(e@)),
            flat_fields(Decl::Enum(e@)).len(),
            decls_model(types@),
            depth as nat,
        ),
    decreases 2 * depth + 1, e,
{
    let ghost m = decls_model(types@);
    let ghost vs = e@.variants;
    let ghost fs = variant_fields(vs, vs.len());
    let mut i: usize = 0;
    while i < e.variants.len()
        invariant
            i <= e.variants.len(),
            m == decls_model(types@),
            vs == e@.variants,
            fs == variant_fields(vs, vs.len()),
            variant_fields(vs, i as nat).len() <= fs.len(),
            any_dynamic(fs, fs.len(), m, depth as nat) == any_dynamic(
                fs,
                (fs.len() - variant_fields(vs, i as nat).len()) as nat,
                m,
                depth as nat,
            ),
        decreases e.variants.len() - i,
    {
        let v = &e.variants[i];
        let ghost base = variant_fields(vs, i as nat).len();
        proof {
            lemma_variant_fields_step(vs, vs.len(), i as nat);
        }
        let mut j: usize = 0;
        while j < v.fields.len()
            invariant
                i < e.variants.len(),
                j <= v.fields.len(),
                *v == e.variants@[i as int],
                m == decls_model(types@),
                vs == e@.variants,
                fs == variant_fields(vs, vs.len()),
                base == variant_fields(vs, i as nat).len(),
                base + v.fields.len() <= fs.len(),
                forall|k: int|
                    0 <= k < vs[i as int].fields.len() ==> #[trigger] fs[base + k]
                        == vs[i as int].fields[k],
                any_dynamic(fs, fs.len(), m, depth as nat) == any_dynamic(
                    fs,
                    (fs.len() - base - j) as nat,
                    m,
                    depth as nat,
                ),
            decreases v.fields.len() - j,
        {
            assert(fs[base + j] == v.fields@[j as int]@);
            match field_has_dynamic(&v.fields[j], types, depth) {
                None => {
                    return None;
                },
                Some(true) => {
                    return Some(true);
                },
                Some(false) => {},
            }
            j = j + 1;
        }
        i = i + 1;
    }
    Some(false)
}

// ---------------------------------------------------------------------------
// Which types have a codec
// ---------------------------------------------------------------------------

/// Whether inline code can be written for `ft`: every name that the code has
/// to look into is declared, and enums nest at most `depth` deep.
pub open spec fn codes(ft: Ty, types: Seq<Decl>, depth: nat) -> bool
    decreases 2 * depth, ft, 0nat,
{
    match ft {
        Ty::Option(t) => codes(*t, types, depth),
        Ty::DOption(t) => codes(*t, types, depth),
        Ty::Ref(t) => match *t {
            Ty::DString => true,
            Ty::DVec(_) => true,
            other => codes(other, types, depth),
        },
        Ty::Tuple(ts) => all_code(ts, ts.len(), types, depth),
        Ty::Array(t, n) => n == 0 || codes(*t, types, depth),
        Ty::Named(name) => match lookup(types, name) {
            None => false,
            Some(Decl::Enum(e)) => depth > 0 && enum_codes(e, types, (depth - 1) as nat),
            _ => true,
        },
        _ => true,
    }
}

/// Whether inline code can be written for the last `n` of `ts`.
pub open spec fn all_code(ts: Seq<Ty>, n: nat, types: Seq<Decl>, depth: nat) -> bool
    decreases 2 * depth, ts, n,
{
    n == 0 || n > ts.len() || (codes(ts[ts.len() - n], types, depth) && all_code(
        ts,
        (n - 1) as nat,
        types,
        depth,
    ))
}

/// Whether inline code can be written for the fields of an enum.
pub open spec fn enum_codes(e: EnumModel, types: Seq<Decl>, depth: nat) -> bool
    decreases 2 * depth + 1, e, 0nat,
{
    forall|i: int, j: int|
        0 <= i < e.variants.len() && 0 <= j < e.variants[i].fields.len() ==> codes(
            (#[trigger] e.variants[i].fields[j]).field_dtype(),
            types,
            depth,
        )
}

/// Whether inline code can be written for `ft`, with enums nested at most
/// `depth` deep.
pub fn has_codec(ft: &FieldType, types: &[TypeDecl], depth: usize) -> (r: bool)
    ensures
        r == codes(ft@, decls_model(types@), depth as nat),
    decreases 2 * depth, ft, 0nat,
{
    let ghost m = decls_model(types@);
    proof {
        reveal_with_fuel(FieldType::model, 2);
    }
    match ft {
        FieldType::Option(t) | FieldType::DOption(t) => has_codec(t, types, depth),
        FieldType::Ref(t) => match &**t {
            FieldType::DString | FieldType::DVec(_) => true,
            other => has_codec(other, types, depth),
        },
        FieldType::Tuple(ts) => {
            let ghost tm = types_model(ts@);
            assert(ft@->Tuple_0 =~= tm);
            let mut i: usize = 0;
            while i < ts.len()
                invariant
                    i <= ts.len(),
                    m == decls_model(types@),
                    tm == types_model(ts@),
                    ft@ == Ty::Tuple(tm),
                    codes(ft@, m, depth as nat) == all_code(
                        tm,
                        (tm.len() - i) as nat,
                        m,
                        depth as nat,
                    ),
                    decreases_to!(ft => ts@),
                decreases ts.len() - i,
            {
                if !has_codec(&ts[i], types, depth) {
                    return false;
                }
                i = i + 1;
            }
            true
        },
        FieldType::Array(t, n) => *n == 0 || has_codec(t, types, depth),
        FieldType::Named(name) => match find_type(types, name.as_str()) {
            None => false,
            Some(TypeDecl::Enum(e)) => depth > 0 && enum_has_codec(e, types, depth - 1),
            _ => true,
        },
        _ => true,
    }
}

fn enum_has_codec(e: &EnumDecl, types: &[TypeDecl], depth: usize) -> (r: bool)
    ensures
        r == enum_codes(e@, decls_model(types@), depth as nat),
    decreases 2 * depth + 1, e, 0nat,
{
    let ghost m = decls_model(types@);
    let mut i: usize = 0;
    while i < e.variants.len()
        invariant
            i <= e.variants.len(),
            m == decls_model(types@),
            forall|a: int, b: int|
                0 <= a < i && 0 <= b < e@.variants[a].fields.len() ==> codes(
                    (#[trigger] e@.variants[a].fields[b]).field_dtype(),
                    m,
                    depth as nat,
                ),
        decreases e.variants.len() - i,
    {
        let v = &e.variants[i];
        assert(e@.variants[i as int] == v@);
        let mut j: usize = 0;
        while j < v.fields.len()
            invariant
                i < e.variants.len(),
                j <= v.fields.len(),
                *v == e.variants@[i as int],
                e@.variants[i as int] == v@,
                m == decls_model(types@),
                forall|b: int|
                    0 <= b < j ==> codes(
                        (#[trigger] e@.variants[i as int].fields[b]).field_dtype(),
                        m,
                        depth as nat,
                    ),
            decreases v.fields.len() - j,
        {
            let dt = v.fields[j].to_field_dtype();
            assert(e@.variants[i as int].fields[j as int] == v.fields@[j as int]@);
            if !has_codec(&dt, types, depth) {
                return false;
            }
            j = j + 1;
        }
        i = i + 1;
    }
    true
}

/// Whether it is settled, for every declared type, if it holds a heap buffer.
pub fn is_settled(types: &[TypeDecl]) -> (r: bool)
    ensures
        r == settled(decls_model(types@)),
{
    let ghost m = decls_model(types@);
    let mut i: usize = 0;
    while i < types.len()
        invariant
            i <= types.len(),
            m == decls_model(types@),
            forall|k: int| 0 <= k < i ==> decl_dynamic(#[trigger] m[k], m) is Some,
        decreases types.len() - i,
    {
        assert(m[i as int] == types@[i as int]@);
        let known = match &types[i] {
            TypeDecl::Struct(s) => struct_has_dynamic_fields(s, types, types.len()).is_some(),
            TypeDecl::Enum(e) => enum_has_dynamic_fields(e, types, types.len()).is_some(),
            TypeDecl::Opaque(_) => true,
        };
        if !known {
            return false;
        }
        i = i + 1;
    }
    true
}

// ---------------------------------------------------------------------------
// Writing
// ---------------------------------------------------------------------------

/// The statements that write the value of `expr`, of type `ft`, to the slot
/// writer `w`: as a return that its receiver owns if `own`, else as an input
/// that stays with the caller.
pub open spec fn write_code(
    own: bool,
    ft: Ty,
    expr: Seq<char>,
    w: Seq<char>,
    types: Seq<Decl>,
    depth: nat,
) -> Seq<char>
    decreases 4 * depth, ft, 0nat,
{
    match ft {
        Ty::Unit => Seq::empty(),
        Ty::Bool => w + ".write_u64(if "@ + expr + " { 1 } else { 0 });"@,
        Ty::U8 => w + ".write_u64("@ + expr + " as u64);"@,
        Ty::I8 => w + ".write_u64("@ + expr + " as u64);"@,
        Ty::U16 => w + ".write_u64("@ + expr + " as u64);"@,
        Ty::I16 => w + ".write_u64("@ + expr + " as u64);"@,
        Ty::U32 => w + ".write_u64("@ + expr + " as u64);"@,
        Ty::I32 => w + ".write_u64("@ + expr + " as u64);"@,
        Ty::U64 => w + ".write_u64("@ + expr + ");"@,
        Ty::I64 => w + ".write_u64("@ + expr + " as u64);"@,
        Ty::F32 => w + ".write_u64("@ + expr + ".to_bits() as u64);"@,
        Ty::F64 => w + ".write_u64("@ + expr + ".to_bits());"@,
        Ty::Str => w
            + ".write_u64("@
            + expr
            + ".as_ptr() as u64); "@
            + w
            + ".write_u64("@
            + expr
            + ".len() as u64);"@,
        Ty::U8Slice => w
            + ".write_u64("@
            + expr
            + ".as_ptr() as u64); "@
            + w
            + ".write_u64("@
            + expr
            + ".len() as u64);"@,
        Ty::OutU8Vec => w + ".write_u64(core::ptr::addr_of!(*"@ + expr + ") as u64);"@,
        Ty::String => if own {
            "if "@
                + expr
                + ".is_empty() { "@
                + w
                + ".write_u64(0); "@
                + w
                + ".write_u64(0); } else { let __len = "@
                + expr
                + ".len(); let __data = dynspire::managed::dynspire_alloc(__alloc, __len, 1); if __data.is_null() { "@
                + w
                + ".write_u64(0); "@
                + w
                + ".write_u64(0); } else { core::ptr::copy_nonoverlapping("@
                + expr
                + ".as_ptr(), __data, __len); "@
                + w
                + ".write_u64(__data as u64); "@
                + w
                + ".write_u64(__len as u64); } }"@
        } else {
            w
                + ".write_u64("@
                + expr
                + ".as_ptr() as u64); "@
                + w
                + ".write_u64("@
                + expr
                + ".len() as u64);"@
        },
        Ty::Vec(inner) => if own {
            let rt = inner.rust_type();
            "if "@
                + expr
                + ".is_empty() { "@
                + w
                + ".write_u64(0); "@
                + w
                + ".write_u64(0); } else { let __len = "@
                + expr
                + ".len(); let __nbytes = __len * core::mem::size_of::<"@
                + rt
                + ">(); let __data = dynspire::managed::dynspire_alloc(__alloc, __nbytes, core::mem::align_of::<"@
                + rt
                + ">()); if __data.is_null() { "@
                + w
                + ".write_u64(0); "@
                + w
                + ".write_u64(0); } else { core::ptr::copy_nonoverlapping("@
                + expr
                + ".as_ptr() as *const u8, __data, __nbytes); "@
                + w
                + ".write_u64(__data as u64); "@
                + w
                + ".write_u64(__len as u64); } }"@
        } else {
            w
                + ".write_u64("@
                + expr
                + ".as_ptr() as u64); "@
                + w
                + ".write_u64("@
                + expr
                + ".len() as u64);"@
        },
        Ty::Option(inner) => {
            let some = write_code(own, *inner, "__v"@, w, types, depth);
            if some.len() == 0 {
                "if "@
                    + expr
                    + ".is_some() { "@
                    + w
                    + ".write_u64(1); } else { "@
                    + w
                    + ".write_u64(0); }"@
            } else {
                "if let Some(__v) = "@
                    + expr
                    + " { "@
                    + w
                    + ".write_u64(1); "@
                    + some
                    + " } else { "@
                    + w
                    + ".write_u64(0); }"@
            }
        },
        Ty::DStr => w
            + ".write_u64("@
            + expr
            + ".ptr as u64); "@
            + w
            + ".write_u64("@
            + expr
            + ".len as u64);"@,
        Ty::DSlice(inner) => slice_write_code(own, *inner, expr, w),
        Ty::DString => w
            + ".write_u64("@
            + expr
            + ".allocator as u64); "@
            + w
            + ".write_u64("@
            + expr
            + ".ptr as u64); "@
            + w
            + ".write_u64("@
            + expr
            + ".len as u64); "@
            + w
            + ".write_u64("@
            + expr
            + ".cap as u64);"@,
        Ty::DVec(_) => w
            + ".write_u64("@
            + expr
            + ".allocator as u64); "@
            + w
            + ".write_u64("@
            + expr
            + ".ptr as u64); "@
            + w
            + ".write_u64("@
            + expr
            + ".len as u64); "@
            + w
            + ".write_u64("@
            + expr
            + ".cap as u64);"@,
        Ty::DOption(inner) => {
            let some = write_code(own, *inner, "__v"@, w, types, depth);
            "if "@
                + expr
                + ".tag == 0 { "@
                + w
                + ".write_u64(0); } else { let __v = "@
                + expr
                + ".value; "@
                + w
                + ".write_u64(1); "@
                + some
                + " }"@
        },
        Ty::Ref(inner) => match *inner {
            Ty::DString => w
                + ".write_u64("@
                + expr
                + ".ptr as u64); "@
                + w
                + ".write_u64("@
                + expr
                + ".len as u64);"@,
            Ty::DVec(elem) => slice_write_code(own, *elem, expr, w),
            other => write_code(own, other, expr, w, types, depth),
        },
        Ty::RefMut(_) => w + ".write_u64(core::ptr::addr_of!(*"@ + expr + ") as u64);"@,
        Ty::Tuple(ts) => tuple_write_code(own, ts, ts.len(), expr, w, types, depth),
        Ty::Array(inner, len) => if *inner is U8 && len % 8 == 0 {
            bytes_write_code(len / 8, expr, w)
        } else {
            array_write_code(*inner, len, expr, w, types, depth)
        },
        Ty::Named(name) => match lookup(types, name) {
            None => Seq::empty(),
            Some(Decl::Struct(s)) => if s.fields.len() == 0 {
                w + ".write_u64(core::ptr::addr_of!("@ + expr + ") as u64);"@
            } else if !own {
                w + ".write_u64(&"@ + expr + " as *const "@ + name + " as u64);"@
            } else if decl_dynamic(Decl::Struct(s), types) == Some(true) {
                "let __ptr = dynspire::managed::dyn_alloc(__alloc, core::mem::size_of::<"@
                    + name
                    + ">(), core::mem::align_of::<"@
                    + name
                    + ">(), 0, Some(drop_"@
                    + name
                    + " as unsafe extern \"C\" fn(*mut core::ffi::c_void))) as *mut "@
                    + name
                    + "; *__ptr = "@
                    + expr
                    + "; "@
                    + w
                    + ".write_u64(__ptr as u64);"@
            } else {
                "let __ptr = dynspire::managed::dynspire_alloc(__alloc, core::mem::size_of::<"@
                    + name
                    + ">(), core::mem::align_of::<"@
                    + name
                    + ">()) as *mut "@
                    + name
                    + "; *__ptr = "@
                    + expr
                    + "; "@
                    + w
                    + ".write_u64(__ptr as u64);"@
            },
            Some(Decl::Opaque(_)) => if own {
                "let __ptr = dynspire::managed::dynspire_alloc(__alloc, core::mem::size_of::<"@
                    + name
                    + ">(), core::mem::align_of::<"@
                    + name
                    + ">()) as *mut "@
                    + name
                    + "; *__ptr = "@
                    + expr
                    + "; "@
                    + w
                    + ".write_u64(__ptr as u64);"@
            } else {
                w + ".write_u64(&"@ + expr + " as *const "@ + name + " as u64);"@
            },
            Some(Decl::Enum(e)) => if depth == 0 {
                Seq::empty()
            } else {
                enum_write_code(own, e, expr, w, types, (depth - 1) as nat)
            },
        },
    }
}

/// The statements that write a slice view.
pub open spec fn slice_write_code(own: bool, elem: Ty, expr: Seq<char>, w: Seq<char>) -> Seq<char> {
    if own {
        let rt = elem.rust_type();
        w
            + ".write_u64("@
            + expr
            + ".ptr as *const "@
            + rt
            + " as u64); "@
            + w
            + ".write_u64("@
            + expr
            + ".len as u64);"@
    } else {
        w + ".write_u64("@ + expr + ".ptr as u64); "@ + w + ".write_u64("@ + expr + ".len as u64);"@
    }
}

/// The statements that write the first `n` elements of a tuple.
pub open spec fn tuple_write_code(
    own: bool,
    ts: Seq<Ty>,
    n: nat,
    expr: Seq<char>,
    w: Seq<char>,
    types: Seq<Decl>,
    depth: nat,
) -> Seq<char>
    decreases 4 * depth, ts, n,
{
    if n == 0 || n > ts.len() {
        Seq::empty()
    } else {
        let i = n - 1;
        tuple_write_code(own, ts, i as nat, expr, w, types, depth) + write_code(
            own,
            ts[i],
            expr + "."@ + dec(i as nat),
            w,
            types,
            depth,
        )
    }
}

/// The statements that write the first `n` words of a byte array.
pub open spec fn bytes_write_code(n: nat, expr: Seq<char>, w: Seq<char>) -> Seq<char>
    decreases n,
{
    if n == 0 {
        Seq::empty()
    } else {
        let start = (n - 1) * 8;
        let end = start + 8;
        bytes_write_code((n - 1) as nat, expr, w) + (w
            + ".write_u64(u64::from_le_bytes("@
            + expr
            + "["@
            + dec(start as nat)
            + ".."@
            + dec(end as nat)
            + "].try_into().unwrap()));"@)
    }
}

/// The statements that write the first `n` elements of an array.
pub open spec fn array_write_code(
    elem: Ty,
    n: nat,
    expr: Seq<char>,
    w: Seq<char>,
    types: Seq<Decl>,
    depth: nat,
) -> Seq<char>
    decreases 4 * depth, elem, n,
{
    if n == 0 {
        Seq::empty()
    } else {
        let i = n - 1;
        array_write_code(elem, i as nat, expr, w, types, depth) + write_code(
            false,
            elem,
            expr + "["@ + dec(i as nat) + "]"@,
            w,
            types,
            depth,
        )
    }
}

/// The patterns that bind the first `n` fields of a variant.
pub open spec fn field_patterns(borrow: bool, n: nat) -> Seq<char>
    decreases n,
{
    if n == 0 {
        Seq::empty()
    } else {
        let i = n - 1;
        let one = if borrow {
            "ref __f"@ + dec(i as nat)
        } else {
            "__f"@ + dec(i as nat)
        };
        if n == 1 {
            one
        } else {
            field_patterns(borrow, i as nat) + ", "@ + one
        }
    }
}

/// The expression for field `i` of a variant, of type `ft`: a borrowed number
/// is dereferenced.
pub open spec fn field_expr(own: bool, ft: Ty, i: int) -> Seq<char> {
    if own {
        "__f"@ + dec(i as nat)
    } else {
        match ft {
            Ty::F32 => "(*__f"@ + dec(i as nat) + ")"@,
            Ty::F64 => "(*__f"@ + dec(i as nat) + ")"@,
            Ty::U8 => "*__f"@ + dec(i as nat),
            Ty::I8 => "*__f"@ + dec(i as nat),
            Ty::U16 => "*__f"@ + dec(i as nat),
            Ty::I16 => "*__f"@ + dec(i as nat),
            Ty::U32 => "*__f"@ + dec(i as nat),
            Ty::I32 => "*__f"@ + dec(i as nat),
            Ty::U64 => "*__f"@ + dec(i as nat),
            Ty::I64 => "*__f"@ + dec(i as nat),
            Ty::Bool => "*__f"@ + dec(i as nat),
            _ => "__f"@ + dec(i as nat),
        }
    }
}

/// The statements that write the first `n` fields of a variant.
pub open spec fn fields_write_code(
    own: bool,
    fs: Seq<Ty>,
    n: nat,
    w: Seq<char>,
    types: Seq<Decl>,
    depth: nat,
) -> Seq<char>
    decreases 4 * depth + 1, fs, n,
{
    if n == 0 || n > fs.len() {
        Seq::empty()
    } else {
        let i = n - 1;
        fields_write_code(own, fs, i as nat, w, types, depth) + write_code(
            own,
            fs[i].field_dtype(),
            field_expr(own, fs[i], i),
            w,
            types,
            depth,
        )
    }
}

/// The match arms that write the first `k` variants of the enum `n`.
pub open spec fn arms_write_code(
    own: bool,
    n: Seq<char>,
    vs: Seq<VariantModel>,
    k: nat,
    w: Seq<char>,
    types: Seq<Decl>,
    depth: nat,
) -> Seq<char>
    decreases 4 * depth + 2, vs, k,
{
    if k == 0 || k > vs.len() {
        Seq::empty()
    } else {
        let i = k - 1;
        let vn = vs[i].name;
        let fs = vs[i].fields;
        let pats = field_patterns(!own, fs.len());
        let stmts = fields_write_code(own, fs, fs.len(), w, types, depth);
        arms_write_code(own, n, vs, i as nat, w, types, depth) + (if fs.len() == 0 {
            n + "::"@ + vn + " => { "@ + w + ".write_u64("@ + dec(i as nat) + "); } "@
        } else {
            n
                + "::"@
                + vn
                + "("@
                + pats
                + ") => { "@
                + w
                + ".write_u64("@
                + dec(i as nat)
                + "); "@
                + stmts
                + " } "@
        })
    }
}

/// The statement that writes an enum: the position of the variant, then its
/// fields.
pub open spec fn enum_write_code(
    own: bool,
    e: EnumModel,
    expr: Seq<char>,
    w: Seq<char>,
    types: Seq<Decl>,
    depth: nat,
) -> Seq<char>
    decreases 4 * depth + 3, e, 0nat,
{
    let arms = arms_write_code(own, e.name, e.variants, e.variants.len(), w, types, depth);
    "match "@ + expr + " { "@ + arms + " }"@
}

fn gen_write(
    own: bool,
    ft: &FieldType,
    expr: &str,
    w: &str,
    types: &[TypeDecl],
    depth: usize,
) -> (r: String)
    requires
        codes(ft@, decls_model(types@), depth as nat),
        own ==> settled(decls_model(types@)),
    ensures
        r@ == write_code(own, ft@, expr@, w@, decls_model(types@), depth as nat),
    decreases 4 * depth, ft, 0nat,
{
    let ghost m = decls_model(types@);
    proof {
        reveal_with_fuel(FieldType::model, 2);
    }
    match ft {
        FieldType::Unit => String::new(),
        FieldType::Bool => String::from_str(w)
            .concat(".write_u64(if ")
            .concat(expr)
            .concat(" { 1 } else { 0 });"),
        FieldType::U8
        | FieldType::I8
        | FieldType::U16
        | FieldType::I16
        | FieldType::U32
        | FieldType::I32
        | FieldType::I64 => String::from_str(w)
            .concat(".write_u64(")
            .concat(expr)
            .concat(" as u64);"),
        FieldType::U64 => String::from_str(w).concat(".write_u64(").concat(expr).concat(");"),
        FieldType::F32 => String::from_str(w)
            .concat(".write_u64(")
            .concat(expr)
            .concat(".to_bits() as u64);"),
        FieldType::F64 => String::from_str(w)
            .concat(".write_u64(")
            .concat(expr)
            .concat(".to_bits());"),
        FieldType::Str | FieldType::U8Slice => String::from_str(w)
            .concat(".write_u64(")
            .concat(expr)
            .concat(".as_ptr() as u64); ")
            .concat(w)
            .concat(".write_u64(")
            .concat(expr)
            .concat(".len() as u64);"),
        FieldType::OutU8Vec | FieldType::RefMut(_) => String::from_str(w)
            .concat(".write_u64(core::ptr::addr_of!(*")
            .concat(expr)
            .concat(") as u64);"),
        FieldType::String => {
            if own {
                String::from_str("if ")
                    .concat(expr)
                    .concat(".is_empty() { ")
                    .concat(w)
                    .concat(".write_u64(0); ")
                    .concat(w)
                    .concat(".write_u64(0); } else { let __len = ")
                    .concat(expr)
                    .concat(".len(); let __data = dynspire::managed::dynspire_alloc(__alloc, __len, 1); if __data.is_null() { ")
                    .concat(w)
                    .concat(".write_u64(0); ")
                    .concat(w)
                    .concat(".write_u64(0); } else { core::ptr::copy_nonoverlapping(")
                    .concat(expr)
                    .concat(".as_ptr(), __data, __len); ")
                    .concat(w)
                    .concat(".write_u64(__data as u64); ")
                    .concat(w)
                    .concat(".write_u64(__len as u64); } }")
            } else {
                String::from_str(w)
                    .concat(".write_u64(")
                    .concat(expr)
                    .concat(".as_ptr() as u64); ")
                    .concat(w)
                    .concat(".write_u64(")
                    .concat(expr)
                    .concat(".len() as u64);")
            }
        },
        FieldType::Vec(inner) => {
            if own {
                let rt = inner.rust_type();
                String::from_str("if ")
                    .concat(expr)
                    .concat(".is_empty() { ")
                    .concat(w)
                    .concat(".write_u64(0); ")
                    .concat(w)
                    .concat(".write_u64(0); } else { let __len = ")
                    .concat(expr)
                    .concat(".len(); let __nbytes = __len * core::mem::size_of::<")
                    .concat(rt.as_str())
                    .concat(">(); let __data = dynspire::managed::dynspire_alloc(__alloc, __nbytes, core::mem::align_of::<")
                    .concat(rt.as_str())
                    .concat(">()); if __data.is_null() { ")
                    .concat(w)
                    .concat(".write_u64(0); ")
                    .concat(w)
                    .concat(".write_u64(0); } else { core::ptr::copy_nonoverlapping(")
                    .concat(expr)
                    .concat(".as_ptr() as *const u8, __data, __nbytes); ")
                    .concat(w)
                    .concat(".write_u64(__data as u64); ")
                    .concat(w)
                    .concat(".write_u64(__len as u64); } }")
            } else {
                String::from_str(w)
                    .concat(".write_u64(")
                    .concat(expr)
                    .concat(".as_ptr() as u64); ")
                    .concat(w)
                    .concat(".write_u64(")
                    .concat(expr)
                    .concat(".len() as u64);")
            }
        },
        FieldType::Option(inner) => {
            let some = gen_write(own, inner, "__v", w, types, depth);
            if some.as_str().is_empty() {
                String::from_str("if ")
                    .concat(expr)
                    .concat(".is_some() { ")
                    .concat(w)
                    .concat(".write_u64(1); } else { ")
                    .concat(w)
                    .concat(".write_u64(0); }")
            } else {
                String::from_str("if let Some(__v) = ")
                    .concat(expr)
                    .concat(" { ")
                    .concat(w)
                    .concat(".write_u64(1); ")
                    .concat(some.as_str())
                    .concat(" } else { ")
                    .concat(w)
                    .concat(".write_u64(0); }")
            }
        },
        FieldType::DStr => String::from_str(w)
            .concat(".write_u64(")
            .concat(expr)
            .concat(".ptr as u64); ")
            .concat(w)
            .concat(".write_u64(")
            .concat(expr)
            .concat(".len as u64);"),
        FieldType::DSlice(inner) => gen_write_slice(own, inner, expr, w),
        FieldType::DString | FieldType::DVec(_) => String::from_str(w)
            .concat(".write_u64(")
            .concat(expr)
            .concat(".allocator as u64); ")
            .concat(w)
            .concat(".write_u64(")
            .concat(expr)
            .concat(".ptr as u64); ")
            .concat(w)
            .concat(".write_u64(")
            .concat(expr)
            .concat(".len as u64); ")
            .concat(w)
            .concat(".write_u64(")
            .concat(expr)
            .concat(".cap as u64);"),
        FieldType::DOption(inner) => {
            let some = gen_write(own, inner, "__v", w, types, depth);
            String::from_str("if ")
                .concat(expr)
                .concat(".tag == 0 { ")
                .concat(w)
                .concat(".write_u64(0); } else { let __v = ")
                .concat(expr)
                .concat(".value; ")
                .concat(w)
                .concat(".write_u64(1); ")
                .concat(some.as_str())
                .concat(" }")
        },
        FieldType::Ref(inner) => match &**inner {
            FieldType::DString => String::from_str(w)
                .concat(".write_u64(")
                .concat(expr)
                .concat(".ptr as u64); ")
                .concat(w)
                .concat(".write_u64(")
                .concat(expr)
                .concat(".len as u64);"),
            FieldType::DVec(elem) => gen_write_slice(own, elem, expr, w),
            other => gen_write(own, other, expr, w, types, depth),
        },
        FieldType::Tuple(ts) => {
            let ghost tm = types_model(ts@);
            assert(ft@->Tuple_0 =~= tm);
            let mut s = String::new();
            let mut i: usize = 0;
            while i < ts.len()
                invariant
                    i <= ts.len(),
                    m == decls_model(types@),
                    tm == types_model(ts@),
                    all_code(tm, (tm.len() - i) as nat, m, depth as nat),
                    own ==> settled(m),
                    s@ == tuple_write_code(own, tm, i as nat, expr@, w@, m, depth as nat),
                    decreases_to!(ft => ts@),
                decreases ts.len() - i,
            {
                let at = String::from_str(expr).concat(".").concat(decimal(i as u64).as_str());
                let piece = gen_write(own, &ts[i], at.as_str(), w, types, depth);
                s = s.concat(piece.as_str());
                i = i + 1;
            }
            s
        },
        FieldType::Array(inner, len) => {
            let len: usize = *len;
            if matches!(&**inner, FieldType::U8) && len % 8 == 0 {
                let mut s = String::new();
                let mut i: usize = 0;
                while i < len / 8
                    invariant
                        i <= len / 8,
                        s@ == bytes_write_code(i as nat, expr@, w@),
                    decreases len / 8 - i,
                {
                    let start: usize = i * 8;
                    let end: usize = start + 8;
                    let piece = String::from_str(w)
                        .concat(".write_u64(u64::from_le_bytes(")
                        .concat(expr)
                        .concat("[")
                        .concat(decimal(start as u64).as_str())
                        .concat("..")
                        .concat(decimal(end as u64).as_str())
                        .concat("].try_into().unwrap()));");
                    s = s.concat(piece.as_str());
                    i = i + 1;
                }
                s
            } else {
                let mut s = String::new();
                let mut i: usize = 0;
                while i < len
                    invariant
                        i <= len,
                        m == decls_model(types@),
                        len > 0 ==> codes(inner@, m, depth as nat),
                        s@ == array_write_code(inner@, i as nat, expr@, w@, m, depth as nat),
                        decreases_to!(ft => inner),
                    decreases len - i,
                {
                    let at = String::from_str(expr)
                        .concat("[")
                        .concat(decimal(i as u64).as_str())
                        .concat("]");
                    let piece = gen_write(false, inner, at.as_str(), w, types, depth);
                    s = s.concat(piece.as_str());
                    i = i + 1;
                }
                s
            }
        },
        FieldType::Named(name) => {
            let name = name.as_str();
            match find_type(types, name) {
                None => String::new(),
                Some(TypeDecl::Struct(st)) => {
                    if st.fields.len() == 0 {
                        String::from_str(w)
                            .concat(".write_u64(core::ptr::addr_of!(")
                            .concat(expr)
                            .concat(") as u64);")
                    } else if !own {
                        String::from_str(w)
                            .concat(".write_u64(&")
                            .concat(expr)
                            .concat(" as *const ")
                            .concat(name)
                            .concat(" as u64);")
                    } else {
                        proof {
                            lookup_finds_declared(m, name@);
                        }
                        match struct_has_dynamic_fields(st, types, types.len()) {
                            Some(true) => String::from_str("let __ptr = dynspire::managed::dyn_alloc(__alloc, core::mem::size_of::<")
                                .concat(name)
                                .concat(">(), core::mem::align_of::<")
                                .concat(name)
                                .concat(">(), 0, Some(drop_")
                                .concat(name)
                                .concat(" as unsafe extern \"C\" fn(*mut core::ffi::c_void))) as *mut ")
                                .concat(name)
                                .concat("; *__ptr = ")
                                .concat(expr)
                                .concat("; ")
                                .concat(w)
                                .concat(".write_u64(__ptr as u64);"),
                            _ => String::from_str("let __ptr = dynspire::managed::dynspire_alloc(__alloc, core::mem::size_of::<")
                                .concat(name)
                                .concat(">(), core::mem::align_of::<")
                                .concat(name)
                                .concat(">()) as *mut ")
                                .concat(name)
                                .concat("; *__ptr = ")
                                .concat(expr)
                                .concat("; ")
                                .concat(w)
                                .concat(".write_u64(__ptr as u64);"),
                        }
                    }
                },
                Some(TypeDecl::Opaque(_)) => {
                    if own {
                        String::from_str("let __ptr = dynspire::managed::dynspire_alloc(__alloc, core::mem::size_of::<")
                            .concat(name)
                            .concat(">(), core::mem::align_of::<")
                            .concat(name)
                            .concat(">()) as *mut ")
                            .concat(name)
                            .concat("; *__ptr = ")
                            .concat(expr)
                            .concat("; ")
                            .concat(w)
                            .concat(".write_u64(__ptr as u64);")
                    } else {
                        String::from_str(w)
                            .concat(".write_u64(&")
                            .concat(expr)
                            .concat(" as *const ")
                            .concat(name)
                            .concat(" as u64);")
                    }
                },
                Some(TypeDecl::Enum(e)) => gen_write_enum(own, e, expr, w, types, depth - 1),
            }
        },
    }
}

fn gen_write_slice(own: bool, elem: &FieldType, expr: &str, w: &str) -> (r: String)
    ensures
        r@ == slice_write_code(own, elem@, expr@, w@),
{
    if own {
        let rt = elem.rust_type();
        String::from_str(w)
            .concat(".write_u64(")
            .concat(expr)
            .concat(".ptr as *const ")
            .concat(rt.as_str())
            .concat(" as u64); ")
            .concat(w)
            .concat(".write_u64(")
            .concat(expr)
            .concat(".len as u64);")
    } else {
        String::from_str(w)
            .concat(".write_u64(")
            .concat(expr)
            .concat(".ptr as u64); ")
            .concat(w)
            .concat(".write_u64(")
            .concat(expr)
            .concat(".len as u64);")
    }
}

/// The patterns that bind `n` fields.
pub fn gen_patterns(borrow: bool, n: usize) -> (r: String)
    ensures
        r@ == field_patterns(borrow, n as nat),
{
    let mut s = String::new();
    let mut i: usize = 0;
    while i < n
        invariant
            i <= n,
            s@ == field_patterns(borrow, i as nat),
        decreases n - i,
    {
        let one = if borrow {
            String::from_str("ref __f").concat(decimal(i as u64).as_str())
        } else {
            String::from_str("__f").concat(decimal(i as u64).as_str())
        };
        if i == 0 {
            s = one;
        } else {
            s = s.concat(", ").concat(one.as_str());
        }
        i = i + 1;
    }
    s
}

fn gen_field_expr(own: bool, ft: &FieldType, i: usize) -> (r: String)
    ensures
        r@ == field_expr(own, ft@, i as int),
{
    if own {
        String::from_str("__f").concat(decimal(i as u64).as_str())
    } else {
        match ft {
            FieldType::F32 | FieldType::F64 => String::from_str("(*__f")
                .concat(decimal(i as u64).as_str())
                .concat(")"),
            FieldType::U8
            | FieldType::I8
            | FieldType::U16
            | FieldType::I16
            | FieldType::U32
            | FieldType::I32
            | FieldType::U64
            | FieldType::I64
            | FieldType::Bool => String::from_str("*__f").concat(decimal(i as u64).as_str()),
            _ => String::from_str("__f").concat(decimal(i as u64).as_str()),
        }
    }
}

fn gen_write_enum(
    own: bool,
    e: &EnumDecl,
    expr: &str,
    w: &str,
    types: &[TypeDecl],
    depth: usize,
) -> (r: String)
    requires
        enum_codes(e@, decls_model(types@), depth as nat),
        own ==> settled(decls_model(types@)),
    ensures
        r@ == enum_write_code(own, e@, expr@, w@, decls_model(types@), depth as nat),
    decreases 4 * depth + 3, e, 0nat,
{
    let ghost m = decls_model(types@);
    let n = e.name.as_str();
    let mut arms = String::new();
    let mut i: usize = 0;
    while i < e.variants.len()
        invariant
            i <= e.variants.len(),
            m == decls_model(types@),
            n@ == e@.name,
            enum_codes(e@, m, depth as nat),
            own ==> settled(m),
            arms@ == arms_write_code(own, n@, e@.variants, i as nat, w@, m, depth as nat),
        decreases e.variants.len() - i,
    {
        let v = &e.variants[i];
        let vn = v.name.as_str();
        let piece = if v.fields.len() == 0 {
            String::from_str(n)
                .concat("::")
                .concat(vn)
                .concat(" => { ")
                .concat(w)
                .concat(".write_u64(")
                .concat(decimal(i as u64).as_str())
                .concat("); } ")
        } else {
            let pats = gen_patterns(!own, v.fields.len());
            let mut stmts = String::new();
            let mut j: usize = 0;
            while j < v.fields.len()
                invariant
                    j <= v.fields.len(),
                    i < e.variants.len(),
                    *v == e.variants@[i as int],
                    m == decls_model(types@),
                    enum_codes(e@, m, depth as nat),
                    own ==> settled(m),
                    stmts@ == fields_write_code(own, v@.fields, j as nat, w@, m, depth as nat),
                decreases v.fields.len() - j,
            {
                assert(e@.variants[i as int].fields[j as int] == v.fields@[j as int]@);
                let dt = v.fields[j].to_field_dtype();
                let at = gen_field_expr(own, &v.fields[j], j);
                let stmt = gen_write(own, &dt, at.as_str(), w, types, depth);
                stmts = stmts.concat(stmt.as_str());
                j = j + 1;
            }
            String::from_str(n)
                .concat("::")
                .concat(vn)
                .concat("(")
                .concat(pats.as_str())
                .concat(") => { ")
                .concat(w)
                .concat(".write_u64(")
                .concat(decimal(i as u64).as_str())
                .concat("); ")
                .concat(stmts.as_str())
                .concat(" } ")
        };
        arms = arms.concat(piece.as_str());
        i = i + 1;
    }
    String::from_str("match ").concat(expr).concat(" { ").concat(arms.as_str()).concat(" }")
}

/// The statements that write a borrowed value, an input parameter.
pub fn gen_write_encode(ft: &FieldType, expr: &str, w: &str, types: &[TypeDecl]) -> (r: String)
    requires
        codes(ft@, decls_model(types@), types@.len()),
    ensures
        r@ == write_code(false, ft@, expr@, w@, decls_model(types@), types@.len()),
{
    gen_write(false, ft, expr, w, types, types.len())
}

/// The statements that write an owned value, a return.
pub fn gen_write_return(ft: &FieldType, expr: &str, w: &str, types: &[TypeDecl]) -> (r: String)
    requires
        codes(ft@, decls_model(types@), types@.len()),
        settled(decls_model(types@)),
    ensures
        r@ == write_code(true, ft@, expr@, w@, decls_model(types@), types@.len()),
{
    gen_write(true, ft, expr, w, types, types.len())
}

// ---------------------------------------------------------------------------
// Reading
// ---------------------------------------------------------------------------

/// The expression that reads a value of type `ft` from the slot reader `r`: as
/// a return that the reader now owns if `own`, else as a borrowed input.
pub open spec fn read_code(
    own: bool,
    ft: Ty,
    r: Seq<char>,
    types: Seq<Decl>,
    depth: nat,
) -> Seq<char>
    decreases 4 * depth, ft, 0nat,
{
    match ft {
        Ty::Unit => "()"@,
        Ty::Bool => r + ".read_u64() != 0"@,
        Ty::U8 => r + ".read_u64() as u8"@,
        Ty::U16 => r + ".read_u64() as u16"@,
        Ty::U32 => r + ".read_u64() as u32"@,
        Ty::U64 => r + ".read_u64()"@,
        Ty::I8 => r + ".read_u64() as i8"@,
        Ty::I16 => r + ".read_u64() as i16"@,
        Ty::I32 => r + ".read_u64() as i32"@,
        Ty::I64 => r + ".read_u64() as i64"@,
        Ty::F32 => "f32::from_bits("@ + r + ".read_u64() as u32)"@,
        Ty::F64 => "f64::from_bits("@ + r + ".read_u64())"@,
        Ty::Str => "unsafe { let __p = "@
            + r
            + ".read_u64() as *const u8; let __l = "@
            + r
            + ".read_u64() as usize; if __p.is_null() || __l == 0 { \"\" } else { core::str::from_utf8_unchecked(core::slice::from_raw_parts(__p, __l)) } }"@,
        Ty::U8Slice => "unsafe { let __p = "@
            + r
            + ".read_u64() as *const u8; let __l = "@
            + r
            + ".read_u64() as usize; if __p.is_null() || __l == 0 { &[] as &[u8] } else { core::slice::from_raw_parts(__p, __l) } }"@,
        Ty::OutU8Vec => "unsafe { &mut *("@ + r + ".read_u64() as *mut Vec<u8>) }"@,
        Ty::String => if own {
            "unsafe { let __ptr = "@
                + r
                + ".read_u64() as *mut u8; let __len = "@
                + r
                + ".read_u64() as usize; if __ptr.is_null() || __len == 0 { String::new() } else { let __v = String::from_utf8_unchecked(core::slice::from_raw_parts(__ptr, __len).to_vec()); dynspire::managed::dynspire_release(__ptr); __v } }"@
        } else {
            "unsafe { let __p = "@
                + r
                + ".read_u64() as *const u8; let __l = "@
                + r
                + ".read_u64() as usize; if __p.is_null() || __l == 0 { String::new() } else { String::from_utf8_unchecked(core::slice::from_raw_parts(__p, __l).to_vec()) } }"@
        },
        Ty::Vec(inner) => {
            let rt = inner.rust_type();
            if own {
                "unsafe { let __ptr = "@
                    + r
                    + ".read_u64() as *mut "@
                    + rt
                    + "; let __len = "@
                    + r
                    + ".read_u64() as usize; if __ptr.is_null() || __len == 0 { Vec::new() } else { let __v = core::slice::from_raw_parts(__ptr, __len).to_vec(); dynspire::managed::dynspire_release(__ptr as *mut u8); __v } }"@
            } else {
                "unsafe { let __p = "@
                    + r
                    + ".read_u64() as *const "@
                    + rt
                    + "; let __l = "@
                    + r
                    + ".read_u64() as usize; if __p.is_null() || __l == 0 { Vec::new() } else { core::slice::from_raw_parts(__p, __l).to_vec() } }"@
            }
        },
        Ty::DStr => "dynspire::managed::DStr { ptr: "@
            + r
            + ".read_u64() as *const u8, len: "@
            + r
            + ".read_u64() as usize }"@,
        Ty::DSlice(inner) => slice_read_code(*inner, r),
        Ty::DString => if own {
            "{ let __alloc = "@
                + r
                + ".read_u64() as *mut dynspire::managed::DynSpireAllocator; let __ptr = "@
                + r
                + ".read_u64() as *mut u8; let __len = "@
                + r
                + ".read_u64() as usize; let __cap = "@
                + r
                + ".read_u64() as usize; dynspire::managed::OwnedDString::from_raw(dynspire::managed::DString { allocator: __alloc, ptr: __ptr, len: __len, cap: __cap }) }"@
        } else {
            "dynspire::managed::DString { allocator: "@
                + r
                + ".read_u64() as *mut dynspire::managed::DynSpireAllocator, ptr: "@
                + r
                + ".read_u64() as *mut u8, len: "@
                + r
                + ".read_u64() as usize, cap: "@
                + r
                + ".read_u64() as usize }"@
        },
        Ty::DVec(inner) => {
            let rt = inner.rust_type();
            if own {
                "{ let __alloc = "@
                    + r
                    + ".read_u64() as *mut dynspire::managed::DynSpireAllocator; let __ptr = "@
                    + r
                    + ".read_u64() as *mut "@
                    + rt
                    + "; let __len = "@
                    + r
                    + ".read_u64() as usize; let __cap = "@
                    + r
                    + ".read_u64() as usize; dynspire::managed::OwnedDVec::<"@
                    + rt
                    + ">::from_raw(dynspire::managed::DVec::<"@
                    + rt
                    + "> { allocator: __alloc, ptr: __ptr, len: __len, cap: __cap }) }"@
            } else {
                "dynspire::managed::DVec::<"@
                    + rt
                    + "> { allocator: "@
                    + r
                    + ".read_u64() as *mut dynspire::managed::DynSpireAllocator, ptr: "@
                    + r
                    + ".read_u64() as *mut "@
                    + rt
                    + ", len: "@
                    + r
                    + ".read_u64() as usize, cap: "@
                    + r
                    + ".read_u64() as usize }"@
            }
        },
        Ty::DOption(inner) => {
            let rt = inner.rust_type();
            let inner_read = read_code(own, *inner, r, types, depth);
            "{ let __tag = "@
                + r
                + ".read_u64(); if __tag == 0 { dynspire::managed::DOption::<"@
                + rt
                + ">::none() } else { dynspire::managed::DOption::<"@
                + rt
                + ">::some("@
                + inner_read
                + ") } }"@
        },
        Ty::Option(inner) => {
            let inner_read = read_code(own, *inner, r, types, depth);
            "{ let __tag = "@
                + r
                + ".read_u64(); if __tag == 0 { None } else { Some("@
                + inner_read
                + ") } }"@
        },
        Ty::Ref(inner) => match *inner {
            Ty::DString => "dynspire::managed::DStr { ptr: "@
                + r
                + ".read_u64() as *const u8, len: "@
                + r
                + ".read_u64() as usize }"@,
            Ty::DVec(elem) => slice_read_code(*elem, r),
            other => read_code(own, other, r, types, depth),
        },
        Ty::RefMut(inner) => {
            let rt = inner.rust_type();
            "unsafe { &mut *("@ + r + ".read_u64() as *mut "@ + rt + ") }"@
        },
        Ty::Tuple(ts) => {
            let parts = tuple_read_code(own, ts, ts.len(), r, types, depth);
            "("@ + parts + ")"@
        },
        Ty::Array(inner, len) => if *inner is U8 && len % 8 == 0 {
            let chunks = bytes_read_code(len / 8, r);
            "{ let mut __arr = [0u8; "@ + dec(len as nat) + "]; "@ + chunks + " __arr }"@
        } else {
            let inits = array_read_code(own, *inner, len, r, types, depth);
            "["@ + inits + "]"@
        },
        Ty::Named(name) => match lookup(types, name) {
            None => Seq::empty(),
            Some(Decl::Struct(s)) => if s.fields.len() == 0 {
                "{ let _ = "@ + r + ".read_u64(); "@ + name + " }"@
            } else if !own {
                "unsafe { (*("@ + r + ".read_u64() as *const "@ + name + ")).clone() }"@
            } else if decl_dynamic(Decl::Struct(s), types) == Some(true) {
                "unsafe { let __ptr = "@
                    + r
                    + ".read_u64() as *mut "@
                    + name
                    + "; let __v = core::ptr::read(__ptr); dynspire::managed::dynspire_dealloc_only(__ptr as *mut u8); __v }"@
            } else {
                "unsafe { let __ptr = "@
                    + r
                    + ".read_u64() as *mut "@
                    + name
                    + "; let __v = core::ptr::read(__ptr); dynspire::managed::dynspire_release(__ptr as *mut u8); __v }"@
            },
            Some(Decl::Opaque(_)) => if own {
                "unsafe { let __ptr = "@
                    + r
                    + ".read_u64() as *mut "@
                    + name
                    + "; let __v = core::ptr::read(__ptr); dynspire::managed::dynspire_release(__ptr as *mut u8); __v }"@
            } else {
                "unsafe { (*("@ + r + ".read_u64() as *const "@ + name + ")).clone() }"@
            },
            Some(Decl::Enum(e)) => if depth == 0 {
                Seq::empty()
            } else {
                enum_read_code(own, e, r, types, (depth - 1) as nat)
            },
        },
    }
}

/// The expression that reads a slice view.
pub open spec fn slice_read_code(elem: Ty, r: Seq<char>) -> Seq<char> {
    let rt = elem.rust_type();
    "dynspire::managed::DSlice::<"@
        + rt
        + "> { ptr: "@
        + r
        + ".read_u64() as *const "@
        + rt
        + ", len: "@
        + r
        + ".read_u64() as usize }"@
}

/// The expressions that read the first `n` of `ts`, separated by commas.
pub open spec fn tuple_read_code(
    own: bool,
    ts: Seq<Ty>,
    n: nat,
    r: Seq<char>,
    types: Seq<Decl>,
    depth: nat,
) -> Seq<char>
    decreases 4 * depth, ts, n,
{
    if n == 0 || n > ts.len() {
        Seq::empty()
    } else if n == 1 {
        read_code(own, ts[0], r, types, depth)
    } else {
        tuple_read_code(own, ts, (n - 1) as nat, r, types, depth) + ", "@ + read_code(
            own,
            ts[n - 1],
            r,
            types,
            depth,
        )
    }
}

/// The statements that fill the first `n` words of a byte array.
pub open spec fn bytes_read_code(n: nat, r: Seq<char>) -> Seq<char>
    decreases n,
{
    if n == 0 {
        Seq::empty()
    } else {
        let start = (n - 1) * 8;
        let end = start + 8;
        bytes_read_code((n - 1) as nat, r) + ("__arr["@
            + dec(start as nat)
            + ".."@
            + dec(end as nat)
            + "].copy_from_slice(&"@
            + r
            + ".read_u64().to_le_bytes());"@)
    }
}

/// The expressions that read `n` elements of an array, each with a comma.
pub open spec fn array_read_code(
    own: bool,
    elem: Ty,
    n: nat,
    r: Seq<char>,
    types: Seq<Decl>,
    depth: nat,
) -> Seq<char>
    decreases 4 * depth, elem, n,
{
    if n == 0 {
        Seq::empty()
    } else {
        array_read_code(own, elem, (n - 1) as nat, r, types, depth) + (read_code(
            own,
            elem,
            r,
            types,
            depth,
        ) + ","@)
    }
}

/// The expressions that read the first `n` fields of a variant.
pub open spec fn fields_read_code(
    own: bool,
    fs: Seq<Ty>,
    n: nat,
    r: Seq<char>,
    types: Seq<Decl>,
    depth: nat,
) -> Seq<char>
    decreases 4 * depth + 1, fs, n,
{
    if n == 0 || n > fs.len() {
        Seq::empty()
    } else if n == 1 {
        read_code(own, fs[0].field_dtype(), r, types, depth)
    } else {
        fields_read_code(own, fs, (n - 1) as nat, r, types, depth) + ", "@ + read_code(
            own,
            fs[n - 1].field_dtype(),
            r,
            types,
            depth,
        )
    }
}

/// The match arms that read the first `k` variants of the enum `n`.
pub open spec fn arms_read_code(
    own: bool,
    n: Seq<char>,
    vs: Seq<VariantModel>,
    k: nat,
    r: Seq<char>,
    types: Seq<Decl>,
    depth: nat,
) -> Seq<char>
    decreases 4 * depth + 2, vs, k,
{
    if k == 0 || k > vs.len() {
        Seq::empty()
    } else {
        let i = k - 1;
        let vn = vs[i].name;
        let fs = vs[i].fields;
        let fields = fields_read_code(own, fs, fs.len(), r, types, depth);
        arms_read_code(own, n, vs, i as nat, r, types, depth) + (if fs.len() == 0 {
            dec(i as nat) + " => "@ + n + "::"@ + vn + ", "@
        } else {
            dec(i as nat) + " => "@ + n + "::"@ + vn + "("@ + fields + "), "@
        })
    }
}

/// The expression that reads an enum: the position of the variant, then its
/// fields.
pub open spec fn enum_read_code(
    own: bool,
    e: EnumModel,
    r: Seq<char>,
    types: Seq<Decl>,
    depth: nat,
) -> Seq<char>
    decreases 4 * depth + 3, e, 0nat,
{
    let n = e.name;
    let arms = arms_read_code(own, n, e.variants, e.variants.len(), r, types, depth);
    "match "@
        + r
        + ".read_u64() { "@
        + arms
        + " _ => panic!(\"invalid discriminant for "@
        + n
        + "\") }"@
}

fn gen_read(own: bool, ft: &FieldType, r: &str, types: &[TypeDecl], depth: usize) -> (out: String)
    requires
        codes(ft@, decls_model(types@), depth as nat),
        own ==> settled(decls_model(types@)),
    ensures
        out@ == read_code(own, ft@, r@, decls_model(types@), depth as nat),
    decreases 4 * depth, ft, 0nat,
{
    let ghost m = decls_model(types@);
    proof {
        reveal_with_fuel(FieldType::model, 2);
    }
    match ft {
        FieldType::Unit => String::from_str("()"),
        FieldType::Bool => String::from_str(r).concat(".read_u64() != 0"),
        FieldType::U8 => String::from_str(r).concat(".read_u64() as u8"),
        FieldType::U16 => String::from_str(r).concat(".read_u64() as u16"),
        FieldType::U32 => String::from_str(r).concat(".read_u64() as u32"),
        FieldType::U64 => String::from_str(r).concat(".read_u64()"),
        FieldType::I8 => String::from_str(r).concat(".read_u64() as i8"),
        FieldType::I16 => String::from_str(r).concat(".read_u64() as i16"),
        FieldType::I32 => String::from_str(r).concat(".read_u64() as i32"),
        FieldType::I64 => String::from_str(r).concat(".read_u64() as i64"),
        FieldType::F32 => String::from_str("f32::from_bits(")
            .concat(r)
            .concat(".read_u64() as u32)"),
        FieldType::F64 => String::from_str("f64::from_bits(").concat(r).concat(".read_u64())"),
        FieldType::Str => String::from_str("unsafe { let __p = ")
            .concat(r)
            .concat(".read_u64() as *const u8; let __l = ")
            .concat(r)
            .concat(".read_u64() as usize; if __p.is_null() || __l == 0 { \"\" } else { core::str::from_utf8_unchecked(core::slice::from_raw_parts(__p, __l)) } }"),
        FieldType::U8Slice => String::from_str("unsafe { let __p = ")
            .concat(r)
            .concat(".read_u64() as *const u8; let __l = ")
            .concat(r)
            .concat(".read_u64() as usize; if __p.is_null() || __l == 0 { &[] as &[u8] } else { core::slice::from_raw_parts(__p, __l) } }"),
        FieldType::OutU8Vec => String::from_str("unsafe { &mut *(")
            .concat(r)
            .concat(".read_u64() as *mut Vec<u8>) }"),
        FieldType::String => {
            if own {
                String::from_str("unsafe { let __ptr = ")
                    .concat(r)
                    .concat(".read_u64() as *mut u8; let __len = ")
                    .concat(r)
                    .concat(".read_u64() as usize; if __ptr.is_null() || __len == 0 { String::new() } else { let __v = String::from_utf8_unchecked(core::slice::from_raw_parts(__ptr, __len).to_vec()); dynspire::managed::dynspire_release(__ptr); __v } }")
            } else {
                String::from_str("unsafe { let __p = ")
                    .concat(r)
                    .concat(".read_u64() as *const u8; let __l = ")
                    .concat(r)
                    .concat(".read_u64() as usize; if __p.is_null() || __l == 0 { String::new() } else { String::from_utf8_unchecked(core::slice::from_raw_parts(__p, __l).to_vec()) } }")
            }
        },
        FieldType::Vec(inner) => {
            let rt = inner.rust_type();
            if own {
                String::from_str("unsafe { let __ptr = ")
                    .concat(r)
                    .concat(".read_u64() as *mut ")
                    .concat(rt.as_str())
                    .concat("; let __len = ")
                    .concat(r)
                    .concat(".read_u64() as usize; if __ptr.is_null() || __len == 0 { Vec::new() } else { let __v = core::slice::from_raw_parts(__ptr, __len).to_vec(); dynspire::managed::dynspire_release(__ptr as *mut u8); __v } }")
            } else {
                String::from_str("unsafe { let __p = ")
                    .concat(r)
                    .concat(".read_u64() as *const ")
                    .concat(rt.as_str())
                    .concat("; let __l = ")
                    .concat(r)
                    .concat(".read_u64() as usize; if __p.is_null() || __l == 0 { Vec::new() } else { core::slice::from_raw_parts(__p, __l).to_vec() } }")
            }
        },
        FieldType::DStr => String::from_str("dynspire::managed::DStr { ptr: ")
            .concat(r)
            .concat(".read_u64() as *const u8, len: ")
            .concat(r)
            .concat(".read_u64() as usize }"),
        FieldType::DSlice(inner) => gen_read_slice(inner, r),
        FieldType::DString => {
            if own {
                String::from_str("{ let __alloc = ")
                    .concat(r)
                    .concat(".read_u64() as *mut dynspire::managed::DynSpireAllocator; let __ptr = ")
                    .concat(r)
                    .concat(".read_u64() as *mut u8; let __len = ")
                    .concat(r)
                    .concat(".read_u64() as usize; let __cap = ")
                    .concat(r)
                    .concat(".read_u64() as usize; dynspire::managed::OwnedDString::from_raw(dynspire::managed::DString { allocator: __alloc, ptr: __ptr, len: __len, cap: __cap }) }")
            } else {
                String::from_str("dynspire::managed::DString { allocator: ")
                    .concat(r)
                    .concat(".read_u64() as *mut dynspire::managed::DynSpireAllocator, ptr: ")
                    .concat(r)
                    .concat(".read_u64() as *mut u8, len: ")
                    .concat(r)
                    .concat(".read_u64() as usize, cap: ")
                    .concat(r)
                    .concat(".read_u64() as usize }")
            }
        },
        FieldType::DVec(inner) => {
            let rt = inner.rust_type();
            if own {
                String::from_str("{ let __alloc = ")
                    .concat(r)
                    .concat(".read_u64() as *mut dynspire::managed::DynSpireAllocator; let __ptr = ")
                    .concat(r)
                    .concat(".read_u64() as *mut ")
                    .concat(rt.as_str())
                    .concat("; let __len = ")
                    .concat(r)
                    .concat(".read_u64() as usize; let __cap = ")
                    .concat(r)
                    .concat(".read_u64() as usize; dynspire::managed::OwnedDVec::<")
                    .concat(rt.as_str())
                    .concat(">::from_raw(dynspire::managed::DVec::<")
                    .concat(rt.as_str())
                    .concat("> { allocator: __alloc, ptr: __ptr, len: __len, cap: __cap }) }")
            } else {
                String::from_str("dynspire::managed::DVec::<")
                    .concat(rt.as_str())
                    .concat("> { allocator: ")
                    .concat(r)
                    .concat(".read_u64() as *mut dynspire::managed::DynSpireAllocator, ptr: ")
                    .concat(r)
                    .concat(".read_u64() as *mut ")
                    .concat(rt.as_str())
                    .concat(", len: ")
                    .concat(r)
                    .concat(".read_u64() as usize, cap: ")
                    .concat(r)
                    .concat(".read_u64() as usize }")
            }
        },
        FieldType::DOption(inner) => {
            let rt = inner.rust_type();
            let inner_read = gen_read(own, inner, r, types, depth);
            String::from_str("{ let __tag = ")
                .concat(r)
                .concat(".read_u64(); if __tag == 0 { dynspire::managed::DOption::<")
                .concat(rt.as_str())
                .concat(">::none() } else { dynspire::managed::DOption::<")
                .concat(rt.as_str())
                .concat(">::some(")
                .concat(inner_read.as_str())
                .concat(") } }")
        },
        FieldType::Option(inner) => {
            let inner_read = gen_read(own, inner, r, types, depth);
            String::from_str("{ let __tag = ")
                .concat(r)
                .concat(".read_u64(); if __tag == 0 { None } else { Some(")
                .concat(inner_read.as_str())
                .concat(") } }")
        },
        FieldType::Ref(inner) => match &**inner {
            FieldType::DString => String::from_str("dynspire::managed::DStr { ptr: ")
                .concat(r)
                .concat(".read_u64() as *const u8, len: ")
                .concat(r)
                .concat(".read_u64() as usize }"),
            FieldType::DVec(elem) => gen_read_slice(elem, r),
            other => gen_read(own, other, r, types, depth),
        },
        FieldType::RefMut(inner) => {
            let rt = inner.rust_type();
            String::from_str("unsafe { &mut *(")
                .concat(r)
                .concat(".read_u64() as *mut ")
                .concat(rt.as_str())
                .concat(") }")
        },
        FieldType::Tuple(ts) => {
            let ghost tm = types_model(ts@);
            assert(ft@->Tuple_0 =~= tm);
            let mut parts = String::new();
            let mut i: usize = 0;
            while i < ts.len()
                invariant
                    i <= ts.len(),
                    m == decls_model(types@),
                    tm == types_model(ts@),
                    all_code(tm, (tm.len() - i) as nat, m, depth as nat),
                    own ==> settled(m),
                    parts@ == tuple_read_code(own, tm, i as nat, r@, m, depth as nat),
                    decreases_to!(ft => ts@),
                decreases ts.len() - i,
            {
                let piece = gen_read(own, &ts[i], r, types, depth);
                if i == 0 {
                    parts = piece;
                } else {
                    parts = parts.concat(", ").concat(piece.as_str());
                }
                i = i + 1;
            }
            String::from_str("(").concat(parts.as_str()).concat(")")
        },
        FieldType::Array(inner, len) => {
            let len: usize = *len;
            if matches!(&**inner, FieldType::U8) && len % 8 == 0 {
                let mut chunks = String::new();
                let mut i: usize = 0;
                while i < len / 8
                    invariant
                        i <= len / 8,
                        chunks@ == bytes_read_code(i as nat, r@),
                    decreases len / 8 - i,
                {
                    let start: usize = i * 8;
                    let end: usize = start + 8;
                    let piece = String::from_str("__arr[")
                        .concat(decimal(start as u64).as_str())
                        .concat("..")
                        .concat(decimal(end as u64).as_str())
                        .concat("].copy_from_slice(&")
                        .concat(r)
                        .concat(".read_u64().to_le_bytes());");
                    chunks = chunks.concat(piece.as_str());
                    i = i + 1;
                }
                String::from_str("{ let mut __arr = [0u8; ")
                    .concat(decimal(len as u64).as_str())
                    .concat("]; ")
                    .concat(chunks.as_str())
                    .concat(" __arr }")
            } else {
                let mut inits = String::new();
                let mut i: usize = 0;
                while i < len
                    invariant
                        i <= len,
                        m == decls_model(types@),
                        len > 0 ==> codes(inner@, m, depth as nat),
                        own ==> settled(m),
                        inits@ == array_read_code(own, inner@, i as nat, r@, m, depth as nat),
                        decreases_to!(ft => inner),
                    decreases len - i,
                {
                    let piece = gen_read(own, inner, r, types, depth).concat(",");
                    inits = inits.concat(piece.as_str());
                    i = i + 1;
                }
                String::from_str("[").concat(inits.as_str()).concat("]")
            }
        },
        FieldType::Named(name) => {
            let name = name.as_str();
            match find_type(types, name) {
                None => String::new(),
                Some(TypeDecl::Struct(st)) => {
                    if st.fields.len() == 0 {
                        String::from_str("{ let _ = ")
                            .concat(r)
                            .concat(".read_u64(); ")
                            .concat(name)
                            .concat(" }")
                    } else if !own {
                        String::from_str("unsafe { (*(")
                            .concat(r)
                            .concat(".read_u64() as *const ")
                            .concat(name)
                            .concat(")).clone() }")
                    } else {
                        proof {
                            lookup_finds_declared(m, name@);
                        }
                        match struct_has_dynamic_fields(st, types, types.len()) {
                            Some(true) => String::from_str("unsafe { let __ptr = ")
                                .concat(r)
                                .concat(".read_u64() as *mut ")
                                .concat(name)
                                .concat("; let __v = core::ptr::read(__ptr); dynspire::managed::dynspire_dealloc_only(__ptr as *mut u8); __v }"),
                            _ => String::from_str("unsafe { let __ptr = ")
                                .concat(r)
                                .concat(".read_u64() as *mut ")
                                .concat(name)
                                .concat("; let __v = core::ptr::read(__ptr); dynspire::managed::dynspire_release(__ptr as *mut u8); __v }"),
                        }
                    }
                },
                Some(TypeDecl::Opaque(_)) => {
                    if own {
                        String::from_str("unsafe { let __ptr = ")
                            .concat(r)
                            .concat(".read_u64() as *mut ")
                            .concat(name)
                            .concat("; let __v = core::ptr::read(__ptr); dynspire::managed::dynspire_release(__ptr as *mut u8); __v }")
                    } else {
                        String::from_str("unsafe { (*(")
                            .concat(r)
                            .concat(".read_u64() as *const ")
                            .concat(name)
                            .concat(")).clone() }")
                    }
                },
                Some(TypeDecl::Enum(e)) => gen_read_enum(own, e, r, types, depth - 1),
            }
        },
    }
}

fn gen_read_slice(elem: &FieldType, r: &str) -> (out: String)
    ensures
        out@ == slice_read_code(elem@, r@),
{
    let rt = elem.rust_type();
    String::from_str("dynspire::managed::DSlice::<")
        .concat(rt.as_str())
        .concat("> { ptr: ")
        .concat(r)
        .concat(".read_u64() as *const ")
        .concat(rt.as_str())
        .concat(", len: ")
        .concat(r)
        .concat(".read_u64() as usize }")
}

fn gen_read_enum(own: bool, e: &EnumDecl, r: &str, types: &[TypeDecl], depth: usize) -> (out: String)
    requires
        enum_codes(e@, decls_model(types@), depth as nat),
        own ==> settled(decls_model(types@)),
    ensures
        out@ == enum_read_code(own, e@, r@, decls_model(types@), depth as nat),
    decreases 4 * depth + 3, e, 0nat,
{
    let ghost m = decls_model(types@);
    let n = e.name.as_str();
    let mut arms = String::new();
    let mut i: usize = 0;
    while i < e.variants.len()
        invariant
            i <= e.variants.len(),
            m == decls_model(types@),
            n@ == e@.name,
            enum_codes(e@, m, depth as nat),
            own ==> settled(m),
            arms@ == arms_read_code(own, n@, e@.variants, i as nat, r@, m, depth as nat),
        decreases e.variants.len() - i,
    {
        let v = &e.variants[i];
        let vn = v.name.as_str();
        let piece = if v.fields.len() == 0 {
            String::from_str(decimal(i as u64).as_str())
                .concat(" => ")
                .concat(n)
                .concat("::")
                .concat(vn)
                .concat(", ")
        } else {
            let mut fields = String::new();
            let mut j: usize = 0;
            while j < v.fields.len()
                invariant
                    j <= v.fields.len(),
                    i < e.variants.len(),
                    *v == e.variants@[i as int],
                    m == decls_model(types@),
                    enum_codes(e@, m, depth as nat),
                    own ==> settled(m),
                    fields@ == fields_read_code(own, v@.fields, j as nat, r@, m, depth as nat),
                decreases v.fields.len() - j,
            {
                assert(e@.variants[i as int].fields[j as int] == v.fields@[j as int]@);
                let dt = v.fields[j].to_field_dtype();
                let one = gen_read(own, &dt, r, types, depth);
                if j == 0 {
                    fields = one;
                } else {
                    fields = fields.concat(", ").concat(one.as_str());
                }
                j = j + 1;
            }
            String::from_str(decimal(i as u64).as_str())
                .concat(" => ")
                .concat(n)
                .concat("::")
                .concat(vn)
                .concat("(")
                .concat(fields.as_str())
                .concat("), ")
        };
        arms = arms.concat(piece.as_str());
        i = i + 1;
    }
    String::from_str("match ")
        .concat(r)
        .concat(".read_u64() { ")
        .concat(arms.as_str())
        .concat(" _ => panic!(\"invalid discriminant for ")
        .concat(n)
        .concat("\") }")
}

/// The expression that decodes a borrowed value, an input parameter, on the
/// spier side.
pub fn gen_read_decode(ft: &FieldType, r: &str, types: &[TypeDecl]) -> (out: String)
    requires
        codes(ft@, decls_model(types@), types@.len()),
    ensures
        out@ == read_code(false, ft@, r@, decls_model(types@), types@.len()),
{
    gen_read(false, ft, r, types, types.len())
}

/// The expression that receives an owned value, a return, on the host side.
pub fn gen_read_receive(ft: &FieldType, r: &str, types: &[TypeDecl]) -> (out: String)
    requires
        codes(ft@, decls_model(types@), types@.len()),
        settled(decls_model(types@)),
    ensures
        out@ == read_code(true, ft@, r@, decls_model(types@), types@.len()),
{
    gen_read(true, ft, r, types, types.len())
}

/// The expression that receives `Result<ret, String>`: a tag, then the value
/// or the message.
pub open spec fn result_read_code(ret: Ty, r: Seq<char>, types: Seq<Decl>) -> Seq<char> {
    let ok_recv = read_code(true, ret, r, types, types.len());
    let err_recv = read_code(true, Ty::String, r, types, types.len());
    "{ let __tag = "@
        + r
        + ".read_u64(); if __tag == 0 { Ok("@
        + ok_recv
        + ") } else { Err("@
        + err_recv
        + ") } }"@
}

/// The expression that receives `Result<ret, String>` on the host side.
pub fn gen_read_result_receive(ret: &FieldType, r: &str, types: &[TypeDecl]) -> (out: String)
    requires
        codes(ret@, decls_model(types@), types@.len()),
        settled(decls_model(types@)),
    ensures
        out@ == result_read_code(ret@, r@, decls_model(types@)),
{
    let ok_recv = gen_read_receive(ret, r, types);
    let err_recv = gen_read_receive(&FieldType::String, r, types);
    String::from_str("{ let __tag = ")
        .concat(r)
        .concat(".read_u64(); if __tag == 0 { Ok(")
        .concat(ok_recv.as_str())
        .concat(") } else { Err(")
        .concat(err_recv.as_str())
        .concat(") } }")
}

/// The statements that copy the writer's slots to the caller, or fail with
/// code 2 if they do not fit.
pub open spec fn epilogue_code(
    w: Seq<char>,
    out_slots: Seq<char>,
    out_capacity: Seq<char>,
) -> Seq<char> {
    "let __n = "@
        + w
        + ".len(); if __n > "@
        + out_capacity
        + " { return 2; } if __n > 0 { unsafe { core::ptr::copy_nonoverlapping("@
        + w
        + ".as_slice().as_ptr(), "@
        + out_slots
        + ", __n); } } 0"@
}

/// The statements that copy the writer's slots to the caller.
pub fn gen_write_out_epilogue(w: &str, out_slots: &str, out_capacity: &str) -> (r: String)
    ensures
        r@ == epilogue_code(w@, out_slots@, out_capacity@),
{
    String::from_str("let __n = ")
        .concat(w)
        .concat(".len(); if __n > ")
        .concat(out_capacity)
        .concat(" { return 2; } if __n > 0 { unsafe { core::ptr::copy_nonoverlapping(")
        .concat(w)
        .concat(".as_slice().as_ptr(), ")
        .concat(out_slots)
        .concat(", __n); } } 0")
}

// ---------------------------------------------------------------------------
// Slots
// ---------------------------------------------------------------------------

/// Whether a value of type `ft` takes the same number of slots whatever it is,
/// and is written without branches: no options and no enums, and no native
/// string or vector that its receiver will own.
pub open spec fn fixed(own: bool, ft: Ty, types: Seq<Decl>) -> bool
    decreases ft, 0nat,
{
    match ft {
        Ty::Option(_) => false,
        Ty::DOption(_) => false,
        Ty::String => !own,
        Ty::Vec(_) => !own,
        Ty::Ref(inner) => match *inner {
            Ty::DString => true,
            Ty::DVec(_) => true,
            other => fixed(own, other, types),
        },
        Ty::Tuple(ts) => all_fixed(own, ts, ts.len(), types),
        Ty::Array(inner, _) => fixed(false, *inner, types),
        Ty::Named(name) => match lookup(types, name) {
            Some(Decl::Struct(_)) => true,
            Some(Decl::Opaque(_)) => true,
            _ => false,
        },
        _ => true,
    }
}

/// Whether the first `n` of `ts` are such types.
pub open spec fn all_fixed(own: bool, ts: Seq<Ty>, n: nat, types: Seq<Decl>) -> bool
    decreases ts, n,
{
    n == 0 || n > ts.len() || (fixed(own, ts[n - 1], types) && all_fixed(
        own,
        ts,
        (n - 1) as nat,
        types,
    ))
}

/// The number of slots that a value of such a type takes.
pub open spec fn width(ft: Ty) -> nat
    decreases ft, 0nat,
{
    match ft {
        Ty::Unit => 0,
        Ty::Str => 2,
        Ty::U8Slice => 2,
        Ty::String => 2,
        Ty::Vec(_) => 2,
        Ty::DStr => 2,
        Ty::DSlice(_) => 2,
        Ty::DString => 4,
        Ty::DVec(_) => 4,
        Ty::Ref(inner) => match *inner {
            Ty::DString => 2,
            Ty::DVec(_) => 2,
            other => width(other),
        },
        Ty::Tuple(ts) => list_width(ts, ts.len()),
        Ty::Array(inner, len) => if *inner is U8 && len % 8 == 0 {
            len / 8
        } else {
            len * width(*inner)
        },
        _ => 1,
    }
}

/// The number of slots that the first `n` of `ts` take.
pub open spec fn list_width(ts: Seq<Ty>, n: nat) -> nat
    decreases ts, n,
{
    if n == 0 || n > ts.len() {
        0
    } else {
        list_width(ts, (n - 1) as nat) + width(ts[n - 1])
    }
}

/// Reading takes as many slots as writing puts. The text that writes a value
/// names the writer once for each slot, and the text that reads it names the
/// reader as often: with a name one character longer each text is longer by
/// the number of slots.
pub proof fn reads_take_what_writes_put(
    own: bool,
    ft: Ty,
    expr: Seq<char>,
    w: Seq<char>,
    c: char,
    types: Seq<Decl>,
    depth: nat,
)
    requires
        fixed(own, ft, types),
    ensures
        write_code(own, ft, expr, w.push(c), types, depth).len() == write_code(
            own,
            ft,
            expr,
            w,
            types,
            depth,
        ).len() + width(ft),
        read_code(own, ft, w.push(c), types, depth).len() == read_code(
            own,
            ft,
            w,
            types,
            depth,
        ).len() + width(ft),
    decreases ft, 0nat,
{
    match ft {
        Ty::Ref(inner) => match *inner {
            Ty::DString => {},
            Ty::DVec(_) => {},
            other => reads_take_what_writes_put(own, other, expr, w, c, types, depth),
        },
        Ty::Tuple(ts) => lemma_tuple_width(own, ts, ts.len(), expr, w, c, types, depth),
        Ty::Array(inner, len) => if *inner is U8 && len % 8 == 0 {
            lemma_bytes_width(len / 8, expr, w, c);
        } else {
            lemma_array_width(own, *inner, len, expr, w, c, types, depth);
        },
        _ => {},
    }
}

proof fn lemma_tuple_width(
    own: bool,
    ts: Seq<Ty>,
    n: nat,
    expr: Seq<char>,
    w: Seq<char>,
    c: char,
    types: Seq<Decl>,
    depth: nat,
)
    requires
        n <= ts.len(),
        all_fixed(own, ts, n, types),
    ensures
        tuple_write_code(own, ts, n, expr, w.push(c), types, depth).len() == tuple_write_code(
            own,
            ts,
            n,
            expr,
            w,
            types,
            depth,
        ).len() + list_width(ts, n),
        tuple_read_code(own, ts, n, w.push(c), types, depth).len() == tuple_read_code(
            own,
            ts,
            n,
            w,
            types,
            depth,
        ).len() + list_width(ts, n),
    decreases ts, n,
{
    if n > 0 {
        let i = n - 1;
        lemma_tuple_width(own, ts, i as nat, expr, w, c, types, depth);
        reads_take_what_writes_put(own, ts[i], expr + "."@ + dec(i as nat), w, c, types, depth);
        if n == 1 {
            assert(list_width(ts, 0) == 0);
        }
    }
}

proof fn lemma_bytes_width(n: nat, expr: Seq<char>, w: Seq<char>, c: char)
    ensures
        bytes_write_code(n, expr, w.push(c)).len() == bytes_write_code(n, expr, w).len() + n,
        bytes_read_code(n, w.push(c)).len() == bytes_read_code(n, w).len() + n,
    decreases n,
{
    if n > 0 {
        lemma_bytes_width((n - 1) as nat, expr, w, c);
    }
}

proof fn lemma_array_width(
    own: bool,
    elem: Ty,
    n: nat,
    expr: Seq<char>,
    w: Seq<char>,
    c: char,
    types: Seq<Decl>,
    depth: nat,
)
    requires
        fixed(false, elem, types),
    ensures
        array_write_code(elem, n, expr, w.push(c), types, depth).len() == array_write_code(
            elem,
            n,
            expr,
            w,
            types,
            depth,
        ).len() + n * width(elem),
        array_read_code(own, elem, n, w.push(c), types, depth).len() == array_read_code(
            own,
            elem,
            n,
            w,
            types,
            depth,
        ).len() + n * width(elem),
    decreases elem, 1 + n,
{
    if n > 0 {
        let i = n - 1;
        lemma_array_width(own, elem, i as nat, expr, w, c, types, depth);
        reads_take_what_writes_put(false, elem, expr
            + "["@
            + dec(i as nat)
            + "]"@, w, c, types, depth);
        lemma_read_width(own, elem, w, c, types, depth);
        assert(n * width(elem) == i * width(elem) + width(elem)) by (nonlinear_arith)
            requires
                n == i + 1,
        ;
    } else {
        assert(0 * width(elem) == 0);
    }
}

proof fn lemma_read_width(own: bool, ft: Ty, w: Seq<char>, c: char, types: Seq<Decl>, depth: nat)
    requires
        fixed(false, ft, types),
    ensures
        read_code(own, ft, w.push(c), types, depth).len() == read_code(
            own,
            ft,
            w,
            types,
            depth,
        ).len() + width(ft),
    decreases ft, 0nat,
{
    match ft {
        Ty::Ref(inner) => match *inner {
            Ty::DString => {},
            Ty::DVec(_) => {},
            other => lemma_read_width(own, other, w, c, types, depth),
        },
        Ty::Tuple(ts) => lemma_read_list_width(own, ts, ts.len(), w, c, types, depth),
        Ty::Array(inner, len) => if *inner is U8 && len % 8 == 0 {
            lemma_bytes_width(len / 8, Seq::empty(), w, c);
        } else {
            lemma_array_width(own, *inner, len, Seq::empty(), w, c, types, depth);
        },
        _ => {},
    }
}

proof fn lemma_read_list_width(
    own: bool,
    ts: Seq<Ty>,
    n: nat,
    w: Seq<char>,
    c: char,
    types: Seq<Decl>,
    depth: nat,
)
    requires
        n <= ts.len(),
        all_fixed(false, ts, n, types),
    ensures
        tuple_read_code(own, ts, n, w.push(c), types, depth).len() == tuple_read_code(
            own,
            ts,
            n,
            w,
            types,
            depth,
        ).len() + list_width(ts, n),
    decreases ts, n,
{
    if n > 0 {
        lemma_read_list_width(own, ts, (n - 1) as nat, w, c, types, depth);
        lemma_read_width(own, ts[n - 1], w, c, types, depth);
        if n == 1 {
            assert(list_width(ts, 0) == 0);
        }
    }
}

} // verus!
