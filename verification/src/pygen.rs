//! The Python generator: from an interface to a ctypes client module.
//!
//! It mirrors the Rust host: the same slots in the same order, written by
//! Python statements and read by Python expressions. The hash comes from the
//! same canonical signature, so the two cannot drift apart.
use vstd::prelude::*;
use vstd::string::{StrSliceExecFns, StringExecFns};

use crate::ast::{
    decls_model, fields_model, idl_hash, types_model, Decl, EnumDecl, EnumModel, FieldType,
    Interface, InterfaceModel, Method, MethodModel, ParamModel, StructDecl, StructModel, Ty,
    TypeDecl, VariantModel,
};
use crate::codec::{find_type, lookup};
use crate::gen::{lemma_occurs, occurs, BuildContext};
use crate::py_runtime::PY_RUNTIME;
use crate::text::{dec, decimal, hex16, hexadecimal, lower_text, to_lower};

verus! {

// ---------------------------------------------------------------------------
// Which returns are copied at once
// ---------------------------------------------------------------------------

/// Whether a return of type `ft` is copied into Python and released at once,
/// looking through enums to nesting `depth`; `None` if a name is not declared
/// or the nesting goes deeper.
pub open spec fn immediate(ft: Ty, types: Seq<Decl>, depth: nat) -> Option<bool>
    decreases 4 * depth, ft, 0nat,
{
    match ft {
        Ty::String => Some(true),
        Ty::Vec(_) => Some(true),
        Ty::Option(inner) => immediate(*inner, types, depth),
        Ty::Tuple(ts) => any_immediate(ts, ts.len(), types, depth),
        Ty::Named(name) => match lookup(types, name) {
            None => None,
            Some(Decl::Enum(e)) => if depth == 0 {
                None
            } else {
                variants_immediate(e.variants, e.variants.len(), types, (depth - 1) as nat)
            },
            _ => Some(false),
        },
        _ => Some(false),
    }
}

/// Whether one of the last `n` of `ts` is copied at once, looking at them in
/// order.
pub open spec fn any_immediate(ts: Seq<Ty>, n: nat, types: Seq<Decl>, depth: nat) -> Option<bool>
    decreases 4 * depth, ts, n,
{
    if n == 0 || n > ts.len() {
        Some(false)
    } else {
        match immediate(ts[ts.len() - n], types, depth) {
            Some(false) => any_immediate(ts, (n - 1) as nat, types, depth),
            known => known,
        }
    }
}

/// Whether a field of one of the last `n` variants is copied at once, looking
/// at them in order.
pub open spec fn variants_immediate(
    vs: Seq<VariantModel>,
    n: nat,
    types: Seq<Decl>,
    depth: nat,
) -> Option<bool>
    decreases 4 * depth + 2, vs, n,
{
    if n == 0 || n > vs.len() {
        Some(false)
    } else {
        let v = vs[vs.len() - n];
        match any_immediate(v.fields, v.fields.len(), types, depth) {
            Some(false) => variants_immediate(vs, (n - 1) as nat, types, depth),
            known => known,
        }
    }
}

/// Whether an owned return is copied into Python and released at once, as
/// opposed to a handle, which is released when it is collected.
pub fn is_immediate_owned(ft: &FieldType, types: &[TypeDecl], depth: usize) -> (r: Option<bool>)
    ensures
        r == immediate(ft@, decls_model(types@), depth as nat),
    decreases 2 * depth, ft,
{
    let ghost m = decls_model(types@);
    match ft {
        FieldType::String | FieldType::Vec(_) => Some(true),
        FieldType::Option(inner) => is_immediate_owned(inner, types, depth),
        FieldType::Tuple(ts) => {
            let ghost tm = types_model(ts@);
            assert(ft@->Tuple_0 =~= tm);
            let mut i: usize = 0;
            while i < ts.len()
                invariant
                    i <= ts.len(),
                    m == decls_model(types@),
                    tm == types_model(ts@),
                    immediate(ft@, m, depth as nat) == any_immediate(
                        tm,
                        (tm.len() - i) as nat,
                        m,
                        depth as nat,
                    ),
                    decreases_to!(ft => ts@),
                decreases ts.len() - i,
            {
                match is_immediate_owned(&ts[i], types, depth) {
                    None => {
                        return None;
                    },
                    Some(true) => {
                        return Some(true);
                    },
                    Some(false) => {},
                }
                i = i + 1;
            }
            Some(false)
        },
        FieldType::Named(name) => match find_type(types, name.as_str()) {
            None => None,
            Some(TypeDecl::Enum(e)) => {
                if depth == 0 {
                    None
                } else {
                    enum_immediate(e, types, depth - 1)
                }
            },
            _ => Some(false),
        },
        _ => Some(false),
    }
}

fn enum_immediate(e: &EnumDecl, types: &[TypeDecl], depth: usize) -> (r: Option<bool>)
    ensures
        r == variants_immediate(
            e@.variants,
            e@.variants.len(),
            decls_model(types@),
            depth as nat,
        ),
    decreases 2 * depth + 1, e,
{
    let ghost m = decls_model(types@);
    let ghost vs = e@.variants;
    let mut i: usize = 0;
    while i < e.variants.len()
        invariant
            i <= e.variants.len(),
            m == decls_model(types@),
            vs == e@.variants,
            variants_immediate(vs, vs.len(), m, depth as nat) == variants_immediate(
                vs,
                (vs.len() - i) as nat,
                m,
                depth as nat,
            ),
        decreases e.variants.len() - i,
    {
        let v = &e.variants[i];
        assert(vs[i as int] == v@);
        let ghost fs = v@.fields;
        let mut j: usize = 0;
        while j < v.fields.len()
            invariant
                i < e.variants.len(),
                j <= v.fields.len(),
                m == decls_model(types@),
                vs == e@.variants,
                vs[i as int] == v@,
                fs == v@.fields,
                variants_immediate(vs, vs.len(), m, depth as nat) == variants_immediate(
                    vs,
                    (vs.len() - i) as nat,
                    m,
                    depth as nat,
                ),
                any_immediate(fs, fs.len(), m, depth as nat) == any_immediate(
                    fs,
                    (fs.len() - j) as nat,
                    m,
                    depth as nat,
                ),
            decreases v.fields.len() - j,
        {
            assert(fs[j as int] == v.fields@[j as int]@);
            match is_immediate_owned(&v.fields[j], types, depth) {
                None => {
                    return None;
                },
                Some(true) => {
                    return Some(true);
                },
                Some(false) => {},
            }
            j = j + 1;
        }
        i = i + 1;
    }
    Some(false)
}

// ---------------------------------------------------------------------------
// Writing parameters
// ---------------------------------------------------------------------------

/// Whether Python can write a parameter of type `ft`: every name it has to
/// look into is declared, enums nest at most `depth` deep, the only native
/// vector is of bytes, and no out-parameter occurs.
pub open spec fn py_writes(ft: Ty, types: Seq<Decl>, depth: nat) -> bool
    decreases 4 * depth, ft, 0nat,
{
    match ft {
        Ty::OutU8Vec => false,
        Ty::RefMut(_) => false,
        Ty::Vec(inner) => *inner is U8,
        Ty::Option(t) => py_writes(*t, types, depth),
        Ty::DOption(t) => py_writes(*t, types, depth),
        Ty::Ref(t) => match *t {
            Ty::DString => true,
            Ty::DVec(_) => true,
            other => py_writes(other, types, depth),
        },
        Ty::Tuple(ts) => all_py_write(ts, ts.len(), types, depth),
        Ty::Array(t, n) => n == 0 || py_writes(*t, types, depth),
        Ty::Named(name) => match lookup(types, name) {
            None => false,
            Some(Decl::Enum(e)) => depth > 0 && variants_py_write(
                e.variants,
                e.variants.len(),
                types,
                (depth - 1) as nat,
            ),
            _ => true,
        },
        _ => true,
    }
}

/// Whether Python can write the last `n` of `ts`.
pub open spec fn all_py_write(ts: Seq<Ty>, n: nat, types: Seq<Decl>, depth: nat) -> bool
    decreases 4 * depth, ts, n,
{
    n == 0 || n > ts.len() || (py_writes(ts[ts.len() - n], types, depth) && all_py_write(
        ts,
        (n - 1) as nat,
        types,
        depth,
    ))
}

/// Whether Python can write the fields of the last `n` variants.
pub open spec fn variants_py_write(
    vs: Seq<VariantModel>,
    n: nat,
    types: Seq<Decl>,
    depth: nat,
) -> bool
    decreases 4 * depth + 2, vs, n,
{
    n == 0 || n > vs.len() || (all_py_write(
        vs[vs.len() - n].fields,
        vs[vs.len() - n].fields.len(),
        types,
        depth,
    ) && variants_py_write(vs, (n - 1) as nat, types, depth))
}

/// Whether Python can write a parameter of type `ft`, with enums nested at most
/// `depth` deep.
pub fn can_py_write(ft: &FieldType, types: &[TypeDecl], depth: usize) -> (r: bool)
    ensures
        r == py_writes(ft@, decls_model(types@), depth as nat),
    decreases 4 * depth, ft, 0nat,
{
    proof {
        reveal_with_fuel(FieldType::model, 2);
    }
    match ft {
        FieldType::OutU8Vec => false,
        FieldType::RefMut(_) => false,
        FieldType::Vec(inner) => matches!(**inner, FieldType::U8),
        FieldType::Option(t) => can_py_write(t, types, depth),
        FieldType::DOption(t) => can_py_write(t, types, depth),
        FieldType::Ref(t) => match &**t {
            FieldType::DString | FieldType::DVec(_) => true,
            other => can_py_write(other, types, depth),
        },
        FieldType::Tuple(ts) => {
            assert(ft@->Tuple_0 =~= types_model(ts@));
            can_py_write_all(ts, types, depth)
        },
        FieldType::Array(t, n) => *n == 0 || can_py_write(t, types, depth),
        FieldType::Named(name) => match find_type(types, name.as_str()) {
            None => false,
            Some(TypeDecl::Enum(e)) => depth > 0 && can_py_write_enum(e, types, depth - 1),
            _ => true,
        },
        _ => true,
    }
}

fn can_py_write_all(ts: &Vec<FieldType>, types: &[TypeDecl], depth: usize) -> (r: bool)
    ensures
        r == all_py_write(
            types_model(ts@),
            ts@.len(),
            decls_model(types@),
            depth as nat,
        ),
    decreases 4 * depth, ts@, 0nat,
{
    let ghost m = decls_model(types@);
    let ghost tm = types_model(ts@);
    let mut i: usize = 0;
    while i < ts.len()
        invariant
            i <= ts.len(),
            m == decls_model(types@),
            tm == types_model(ts@),
            all_py_write(tm, tm.len(), m, depth as nat) == all_py_write(
                tm,
                (tm.len() - i) as nat,
                m,
                depth as nat,
            ),
        decreases ts.len() - i,
    {
        if !can_py_write(&ts[i], types, depth) {
            return false;
        }
        i = i + 1;
    }
    true
}

fn can_py_write_enum(e: &EnumDecl, types: &[TypeDecl], depth: usize) -> (r: bool)
    ensures
        r == variants_py_write(
            e@.variants,
            e@.variants.len(),
            decls_model(types@),
            depth as nat,
        ),
    decreases 4 * depth + 2, e.variants@, 0nat,
{
    let ghost m = decls_model(types@);
    let ghost vs = e@.variants;
    let mut i: usize = 0;
    while i < e.variants.len()
        invariant
            i <= e.variants.len(),
            m == decls_model(types@),
            vs == e@.variants,
            vs.len() == e.variants@.len(),
            variants_py_write(vs, vs.len(), m, depth as nat) == variants_py_write(
                vs,
                (vs.len() - i) as nat,
                m,
                depth as nat,
            ),
        decreases e.variants.len() - i,
    {
        let v = &e.variants[i];
        assert(vs[i as int] == v@);
        if !can_py_write_all(&v.fields, types, depth) {
            return false;
        }
        i = i + 1;
    }
    true
}

/// The Python statements, indented by `pad`, that write the value of `expr`,
/// of type `ft`, to the slot writer `w`.
pub open spec fn py_write_code(
    ft: Ty,
    expr: Seq<char>,
    w: Seq<char>,
    types: Seq<Decl>,
    pad: Seq<char>,
    depth: nat,
) -> Seq<char>
    decreases 4 * depth, ft, 0nat,
{
    let inpad = pad + "    "@;
    match ft {
        Ty::Unit => Seq::empty(),
        Ty::Bool => pad + w + ".write_bool("@ + expr + ")\n"@,
        Ty::U8 => pad + w + ".write_u8("@ + expr + ")\n"@,
        Ty::U16 => pad + w + ".write_u16("@ + expr + ")\n"@,
        Ty::U32 => pad + w + ".write_u32("@ + expr + ")\n"@,
        Ty::U64 => pad + w + ".write_u64("@ + expr + ")\n"@,
        Ty::I8 => pad + w + ".write_i8("@ + expr + ")\n"@,
        Ty::I16 => pad + w + ".write_i16("@ + expr + ")\n"@,
        Ty::I32 => pad + w + ".write_i32("@ + expr + ")\n"@,
        Ty::I64 => pad + w + ".write_i64("@ + expr + ")\n"@,
        Ty::F32 => pad + w + ".write_f32("@ + expr + ")\n"@,
        Ty::F64 => pad + w + ".write_f64("@ + expr + ")\n"@,
        Ty::Str => pad + w + ".write_str("@ + expr + ")\n"@,
        Ty::String => pad + w + ".write_str("@ + expr + ")\n"@,
        Ty::U8Slice => pad + w + ".write_bytes("@ + expr + ")\n"@,
        Ty::Vec(_) => pad + w + ".write_bytes("@ + expr + ")\n"@,
        Ty::OutU8Vec => Seq::empty(),
        Ty::RefMut(_) => Seq::empty(),
        Ty::DStr => pad
            + w
            + ".write_u64(int("@
            + expr
            + ".ptr));\n"@
            + pad
            + w
            + ".write_u64(int("@
            + expr
            + ".len))\n"@,
        Ty::DSlice(_) => pad
            + w
            + ".write_u64(int("@
            + expr
            + ".ptr));\n"@
            + pad
            + w
            + ".write_u64(int("@
            + expr
            + ".len))\n"@,
        Ty::DString => pad
            + w
            + ".write_u64(int("@
            + expr
            + ".allocator));\n"@
            + pad
            + w
            + ".write_u64(int("@
            + expr
            + ".ptr));\n"@
            + pad
            + w
            + ".write_u64(int("@
            + expr
            + ".len));\n"@
            + pad
            + w
            + ".write_u64(int("@
            + expr
            + ".cap))\n"@,
        Ty::DVec(_) => pad
            + w
            + ".write_u64(int("@
            + expr
            + ".allocator));\n"@
            + pad
            + w
            + ".write_u64(int("@
            + expr
            + ".ptr));\n"@
            + pad
            + w
            + ".write_u64(int("@
            + expr
            + ".len));\n"@
            + pad
            + w
            + ".write_u64(int("@
            + expr
            + ".cap))\n"@,
        Ty::DOption(inner) => {
            let inner_w = py_write_code(*inner, expr, w, types, inpad, depth);
            pad
                + "if "@
                + expr
                + " is None:\n"@
                + inpad
                + w
                + ".write_u64(0)\n"@
                + pad
                + "else:\n"@
                + inpad
                + w
                + ".write_u64(1)\n"@
                + inner_w
        },
        Ty::Option(inner) => {
            let inner_w = py_write_code(*inner, expr, w, types, inpad, depth);
            pad
                + "if "@
                + expr
                + " is None:\n"@
                + inpad
                + w
                + ".write_u64(0)\n"@
                + pad
                + "else:\n"@
                + inpad
                + w
                + ".write_u64(1)\n"@
                + inner_w
        },
        Ty::Ref(inner) => match *inner {
            Ty::DString => pad
                + w
                + ".write_u64(int("@
                + expr
                + ".ptr));\n"@
                + pad
                + w
                + ".write_u64(int("@
                + expr
                + ".len))\n"@,
            Ty::DVec(_) => pad
                + w
                + ".write_u64(int("@
                + expr
                + ".ptr));\n"@
                + pad
                + w
                + ".write_u64(int("@
                + expr
                + ".len))\n"@,
            other => py_write_code(other, expr, w, types, pad, depth),
        },
        Ty::Tuple(ts) => py_write_list(ts, ts.len(), expr, w, types, pad, depth),
        Ty::Array(inner, len) => if *inner is U8 && len % 8 == 0 {
            py_write_chunks(len / 8, expr, w, pad)
        } else {
            py_write_array(*inner, len, expr, w, types, pad, depth)
        },
        Ty::Named(name) => match lookup(types, name) {
            None => Seq::empty(),
            Some(Decl::Enum(e)) => if depth == 0 {
                Seq::empty()
            } else {
                py_enum_write_code(e, expr, w, types, pad, (depth - 1) as nat)
            },
            _ => pad + w + ".write_opaque("@ + expr + ")\n"@,
        },
    }
}

/// The statements that write the first `n` elements of a tuple.
pub open spec fn py_write_list(
    ts: Seq<Ty>,
    n: nat,
    expr: Seq<char>,
    w: Seq<char>,
    types: Seq<Decl>,
    pad: Seq<char>,
    depth: nat,
) -> Seq<char>
    decreases 4 * depth, ts, n,
{
    if n == 0 || n > ts.len() {
        Seq::empty()
    } else {
        let i = n - 1;
        py_write_list(ts, i as nat, expr, w, types, pad, depth) + py_write_code(
            ts[i],
            expr + "["@ + dec(i as nat) + "]"@,
            w,
            types,
            pad,
            depth,
        )
    }
}

/// The statements that write the first `n` words of a byte array.
pub open spec fn py_write_chunks(n: nat, expr: Seq<char>, w: Seq<char>, pad: Seq<char>) -> Seq<char>
    decreases n,
{
    if n == 0 {
        Seq::empty()
    } else {
        let start = (n - 1) * 8;
        let end = start + 8;
        py_write_chunks((n - 1) as nat, expr, w, pad) + (pad
            + w
            + ".write_u64(int.from_bytes("@
            + expr
            + "["@
            + dec(start as nat)
            + ":"@
            + dec(end as nat)
            + "], 'little'))\n"@)
    }
}

/// The statements that write the first `n` elements of an array.
pub open spec fn py_write_array(
    elem: Ty,
    n: nat,
    expr: Seq<char>,
    w: Seq<char>,
    types: Seq<Decl>,
    pad: Seq<char>,
    depth: nat,
) -> Seq<char>
    decreases 4 * depth, elem, n,
{
    if n == 0 {
        Seq::empty()
    } else {
        let i = n - 1;
        py_write_array(elem, i as nat, expr, w, types, pad, depth) + py_write_code(
            elem,
            expr + "["@ + dec(i as nat) + "]"@,
            w,
            types,
            pad,
            depth,
        )
    }
}

/// The statements that write the first `k` fields of a variant.
pub open spec fn py_write_fields(
    fs: Seq<Ty>,
    k: nat,
    expr: Seq<char>,
    w: Seq<char>,
    types: Seq<Decl>,
    pad: Seq<char>,
    depth: nat,
) -> Seq<char>
    decreases 4 * depth + 1, fs, k,
{
    if k == 0 || k > fs.len() {
        Seq::empty()
    } else {
        let i = k - 1;
        py_write_fields(fs, i as nat, expr, w, types, pad, depth) + py_write_code(
            fs[i],
            expr + ".fields["@ + dec(i as nat) + "]"@,
            w,
            types,
            pad,
            depth,
        )
    }
}

/// The branches that write the first `k` variants of an enum.
pub open spec fn py_write_variants(
    vs: Seq<VariantModel>,
    k: nat,
    expr: Seq<char>,
    w: Seq<char>,
    types: Seq<Decl>,
    pad: Seq<char>,
    depth: nat,
) -> Seq<char>
    decreases 4 * depth + 2, vs, k,
{
    if k == 0 || k > vs.len() {
        Seq::empty()
    } else {
        let i = k - 1;
        let inpad = pad + "    "@;
        let kw = if i == 0 {
            "if"@
        } else {
            "elif"@
        };
        let vn = vs[i].name;
        let fs = vs[i].fields;
        py_write_variants(vs, i as nat, expr, w, types, pad, depth) + (pad
            + kw
            + " "@
            + expr
            + ".variant == '"@
            + vn
            + "':\n"@) + (
        inpad
            + w
            + ".write_u64("@
            + dec(i as nat)
            + ")\n"@) + py_write_fields(fs, fs.len(), expr, w, types, inpad, depth)
    }
}

/// The statement that writes an enum: the position of the variant, then its
/// fields.
pub open spec fn py_enum_write_code(
    e: EnumModel,
    expr: Seq<char>,
    w: Seq<char>,
    types: Seq<Decl>,
    pad: Seq<char>,
    depth: nat,
) -> Seq<char>
    decreases 4 * depth + 3, e, 0nat,
{
    let inpad = pad + "    "@;
    let n = e.name;
    py_write_variants(e.variants, e.variants.len(), expr, w, types, pad, depth) + (pad
        + "else:\n"@
        + inpad
        + "raise ValueError('invalid "@
        + n
        + " variant: ' + repr("@
        + expr
        + ".variant))\n"@)
}

/// The Python statements that write a parameter.
pub fn gen_py_write(
    ft: &FieldType,
    expr: &str,
    w: &str,
    types: &[TypeDecl],
    pad: &str,
    depth: usize,
) -> (r: String)
    requires
        py_writes(ft@, decls_model(types@), depth as nat),
    ensures
        r@ == py_write_code(ft@, expr@, w@, decls_model(types@), pad@, depth as nat),
    decreases 2 * depth, ft,
{
    let ghost m = decls_model(types@);
    proof {
        reveal_with_fuel(FieldType::model, 2);
    }
    let inpad = String::from_str(pad).concat("    ");
    match ft {
        FieldType::Unit => String::new(),
        FieldType::Bool => String::from_str(pad)
            .concat(w)
            .concat(".write_bool(")
            .concat(expr)
            .concat(")\n"),
        FieldType::U8 => String::from_str(pad)
            .concat(w)
            .concat(".write_u8(")
            .concat(expr)
            .concat(")\n"),
        FieldType::U16 => String::from_str(pad)
            .concat(w)
            .concat(".write_u16(")
            .concat(expr)
            .concat(")\n"),
        FieldType::U32 => String::from_str(pad)
            .concat(w)
            .concat(".write_u32(")
            .concat(expr)
            .concat(")\n"),
        FieldType::U64 => String::from_str(pad)
            .concat(w)
            .concat(".write_u64(")
            .concat(expr)
            .concat(")\n"),
        FieldType::I8 => String::from_str(pad)
            .concat(w)
            .concat(".write_i8(")
            .concat(expr)
            .concat(")\n"),
        FieldType::I16 => String::from_str(pad)
            .concat(w)
            .concat(".write_i16(")
            .concat(expr)
            .concat(")\n"),
        FieldType::I32 => String::from_str(pad)
            .concat(w)
            .concat(".write_i32(")
            .concat(expr)
            .concat(")\n"),
        FieldType::I64 => String::from_str(pad)
            .concat(w)
            .concat(".write_i64(")
            .concat(expr)
            .concat(")\n"),
        FieldType::F32 => String::from_str(pad)
            .concat(w)
            .concat(".write_f32(")
            .concat(expr)
            .concat(")\n"),
        FieldType::F64 => String::from_str(pad)
            .concat(w)
            .concat(".write_f64(")
            .concat(expr)
            .concat(")\n"),
        FieldType::Str | FieldType::String => String::from_str(pad)
            .concat(w)
            .concat(".write_str(")
            .concat(expr)
            .concat(")\n"),
        FieldType::U8Slice | FieldType::Vec(_) => String::from_str(pad)
            .concat(w)
            .concat(".write_bytes(")
            .concat(expr)
            .concat(")\n"),
        FieldType::OutU8Vec | FieldType::RefMut(_) => String::new(),
        FieldType::DStr | FieldType::DSlice(_) => String::from_str(pad)
            .concat(w)
            .concat(".write_u64(int(")
            .concat(expr)
            .concat(".ptr));\n")
            .concat(pad)
            .concat(w)
            .concat(".write_u64(int(")
            .concat(expr)
            .concat(".len))\n"),
        FieldType::DString | FieldType::DVec(_) => String::from_str(pad)
            .concat(w)
            .concat(".write_u64(int(")
            .concat(expr)
            .concat(".allocator));\n")
            .concat(pad)
            .concat(w)
            .concat(".write_u64(int(")
            .concat(expr)
            .concat(".ptr));\n")
            .concat(pad)
            .concat(w)
            .concat(".write_u64(int(")
            .concat(expr)
            .concat(".len));\n")
            .concat(pad)
            .concat(w)
            .concat(".write_u64(int(")
            .concat(expr)
            .concat(".cap))\n"),
        FieldType::DOption(inner) => {
            let inner_w = gen_py_write(inner, expr, w, types, inpad.as_str(), depth);
            String::from_str(pad)
                .concat("if ")
                .concat(expr)
                .concat(" is None:\n")
                .concat(inpad.as_str())
                .concat(w)
                .concat(".write_u64(0)\n")
                .concat(pad)
                .concat("else:\n")
                .concat(inpad.as_str())
                .concat(w)
                .concat(".write_u64(1)\n")
                .concat(inner_w.as_str())
        },
        FieldType::Option(inner) => {
            let inner_w = gen_py_write(inner, expr, w, types, inpad.as_str(), depth);
            String::from_str(pad)
                .concat("if ")
                .concat(expr)
                .concat(" is None:\n")
                .concat(inpad.as_str())
                .concat(w)
                .concat(".write_u64(0)\n")
                .concat(pad)
                .concat("else:\n")
                .concat(inpad.as_str())
                .concat(w)
                .concat(".write_u64(1)\n")
                .concat(inner_w.as_str())
        },
        FieldType::Ref(inner) => match &**inner {
            FieldType::DString | FieldType::DVec(_) => String::from_str(pad)
                .concat(w)
                .concat(".write_u64(int(")
                .concat(expr)
                .concat(".ptr));\n")
                .concat(pad)
                .concat(w)
                .concat(".write_u64(int(")
                .concat(expr)
                .concat(".len))\n"),
            other => gen_py_write(other, expr, w, types, pad, depth),
        },
        FieldType::Tuple(ts) => {
            let ghost tm = types_model(ts@);
            assert(ft@->Tuple_0 =~= tm);
            let mut s = String::new();
            let mut i: usize = 0;
            while i < ts.len()
                invariant
                    i <= ts.len(),
                    m == decls_model(types@),
                    tm == types_model(ts@),
                    all_py_write(tm, (tm.len() - i) as nat, m, depth as nat),
                    s@ == py_write_list(tm, i as nat, expr@, w@, m, pad@, depth as nat),
                    decreases_to!(ft => ts@),
                decreases ts.len() - i,
            {
                let at = String::from_str(expr)
                    .concat("[")
                    .concat(decimal(i as u64).as_str())
                    .concat("]");
                let piece = gen_py_write(&ts[i], at.as_str(), w, types, pad, depth);
                s = s.concat(piece.as_str());
                i = i + 1;
            }
            s
        },
        FieldType::Array(inner, len) => {
            let len: usize = *len;
            if matches!(&**inner, FieldType::U8) && len % 8 == 0 {
                let mut s = String::new();
                let mut i: usize = 0;
                while i < len / 8
                    invariant
                        i <= len / 8,
                        s@ == py_write_chunks(i as nat, expr@, w@, pad@),
                    decreases len / 8 - i,
                {
                    let start: usize = i * 8;
                    let end: usize = start + 8;
                    let piece = String::from_str(pad)
                        .concat(w)
                        .concat(".write_u64(int.from_bytes(")
                        .concat(expr)
                        .concat("[")
                        .concat(decimal(start as u64).as_str())
                        .concat(":")
                        .concat(decimal(end as u64).as_str())
                        .concat("], 'little'))\n");
                    s = s.concat(piece.as_str());
                    i = i + 1;
                }
                s
            } else {
                let mut s = String::new();
                let mut i: usize = 0;
                while i < len
                    invariant
                        i <= len,
                        m == decls_model(types@),
                        len > 0 ==> py_writes(inner@, m, depth as nat),
                        s@ == py_write_array(inner@, i as nat, expr@, w@, m, pad@, depth as nat),
                        decreases_to!(ft => inner),
                    decreases len - i,
                {
                    let at = String::from_str(expr)
                        .concat("[")
                        .concat(decimal(i as u64).as_str())
                        .concat("]");
                    let piece = gen_py_write(inner, at.as_str(), w, types, pad, depth);
                    s = s.concat(piece.as_str());
                    i = i + 1;
                }
                s
            }
        },
        FieldType::Named(name) => match find_type(types, name.as_str()) {
            None => String::new(),
            Some(TypeDecl::Enum(e)) => gen_py_enum_write(e, expr, w, types, pad, depth - 1),
            _ => String::from_str(pad)
                .concat(w)
                .concat(".write_opaque(")
                .concat(expr)
                .concat(")\n"),
        },
    }
}

/// The Python statement that writes an enum.
pub fn gen_py_enum_write(
    e: &EnumDecl,
    expr: &str,
    w: &str,
    types: &[TypeDecl],
    pad: &str,
    depth: usize,
) -> (r: String)
    requires
        variants_py_write(
            e@.variants,
            e@.variants.len(),
            decls_model(types@),
            depth as nat,
        ),
    ensures
        r@ == py_enum_write_code(e@, expr@, w@, decls_model(types@), pad@, depth as nat),
    decreases 2 * depth + 1, e,
{
    let ghost m = decls_model(types@);
    let ghost vs = e@.variants;
    let inpad = String::from_str(pad).concat("    ");
    let n = e.name.as_str();
    let mut s = String::new();
    let mut i: usize = 0;
    while i < e.variants.len()
        invariant
            i <= e.variants.len(),
            m == decls_model(types@),
            vs == e@.variants,
            inpad@ == pad@ + "    "@,
            variants_py_write(vs, (vs.len() - i) as nat, m, depth as nat),
            s@ == py_write_variants(vs, i as nat, expr@, w@, m, pad@, depth as nat),
        decreases e.variants.len() - i,
    {
        let v = &e.variants[i];
        assert(vs[i as int] == v@);
        let vn = v.name.as_str();
        let kw = if i == 0 {
            "if"
        } else {
            "elif"
        };
        let head = String::from_str(pad)
            .concat(kw)
            .concat(" ")
            .concat(expr)
            .concat(".variant == '")
            .concat(vn)
            .concat("':\n");
        let disc = String::from_str(inpad.as_str())
            .concat(w)
            .concat(".write_u64(")
            .concat(decimal(i as u64).as_str())
            .concat(")\n");
        let ghost fs = v@.fields;
        let mut fields = String::new();
        let mut j: usize = 0;
        while j < v.fields.len()
            invariant
                j <= v.fields.len(),
                m == decls_model(types@),
                fs == v@.fields,
                all_py_write(fs, (fs.len() - j) as nat, m, depth as nat),
                fields@ == py_write_fields(
                    fs,
                    j as nat,
                    expr@,
                    w@,
                    m,
                    inpad@,
                    depth as nat,
                ),
            decreases v.fields.len() - j,
        {
            assert(fs[j as int] == v.fields@[j as int]@);
            let at = String::from_str(expr)
                .concat(".fields[")
                .concat(decimal(j as u64).as_str())
                .concat("]");
            let piece = gen_py_write(&v.fields[j], at.as_str(), w, types, inpad.as_str(), depth);
            fields = fields.concat(piece.as_str());
            j = j + 1;
        }
        s = s.concat(head.as_str()).concat(disc.as_str()).concat(fields.as_str());
        i = i + 1;
    }
    let invalid = String::from_str(pad)
        .concat("else:\n")
        .concat(inpad.as_str())
        .concat("raise ValueError('invalid ")
        .concat(n)
        .concat(" variant: ' + repr(")
        .concat(expr)
        .concat(".variant))\n");
    s.concat(invalid.as_str())
}

// ---------------------------------------------------------------------------
// Reading returns
// ---------------------------------------------------------------------------

/// Whether one Python expression can read a return of type `ft`: no empty
/// struct, of native vectors only bytes, strings and lists of bytes, and enums
/// nested at most `depth` deep.
pub open spec fn py_reads(ft: Ty, types: Seq<Decl>, depth: nat) -> bool
    decreases 4 * depth, ft, 0nat,
{
    match ft {
        Ty::Vec(inner) => match *inner {
            Ty::U8 => true,
            Ty::String => true,
            Ty::Vec(b) => *b is U8,
            _ => false,
        },
        Ty::Option(t) => py_reads(*t, types, depth),
        Ty::DOption(t) => py_reads(*t, types, depth),
        Ty::Ref(t) => match *t {
            Ty::DString => true,
            Ty::DVec(_) => true,
            other => py_reads(other, types, depth),
        },
        Ty::Tuple(ts) => all_py_read(ts, ts.len(), types, depth),
        Ty::Array(t, n) => n == 0 || py_reads(*t, types, depth),
        Ty::Named(name) => match lookup(types, name) {
            Some(Decl::Struct(s)) => s.fields.len() > 0,
            Some(Decl::Opaque(_)) => true,
            Some(Decl::Enum(e)) => depth > 0 && variants_py_read(
                e.variants,
                e.variants.len(),
                types,
                (depth - 1) as nat,
            ),
            None => false,
        },
        _ => true,
    }
}

/// Whether Python expressions can read the last `n` of `ts`.
pub open spec fn all_py_read(ts: Seq<Ty>, n: nat, types: Seq<Decl>, depth: nat) -> bool
    decreases 4 * depth, ts, n,
{
    n == 0 || n > ts.len() || (py_reads(ts[ts.len() - n], types, depth) && all_py_read(
        ts,
        (n - 1) as nat,
        types,
        depth,
    ))
}

/// Whether Python expressions can read the fields of the last `n` variants.
pub open spec fn variants_py_read(
    vs: Seq<VariantModel>,
    n: nat,
    types: Seq<Decl>,
    depth: nat,
) -> bool
    decreases 4 * depth + 2, vs, n,
{
    n == 0 || n > vs.len() || (all_py_read(
        vs[vs.len() - n].fields,
        vs[vs.len() - n].fields.len(),
        types,
        depth,
    ) && variants_py_read(vs, (n - 1) as nat, types, depth))
}

/// Whether one Python expression can read a return of type `ft`.
pub fn can_py_read(ft: &FieldType, types: &[TypeDecl], depth: usize) -> (r: bool)
    ensures
        r == py_reads(ft@, decls_model(types@), depth as nat),
    decreases 4 * depth, ft, 0nat,
{
    proof {
        reveal_with_fuel(FieldType::model, 3);
    }
    match ft {
        FieldType::Vec(inner) => match &**inner {
            FieldType::U8 => true,
            FieldType::String => true,
            FieldType::Vec(b) => matches!(**b, FieldType::U8),
            _ => false,
        },
        FieldType::Option(t) => can_py_read(t, types, depth),
        FieldType::DOption(t) => can_py_read(t, types, depth),
        FieldType::Ref(t) => match &**t {
            FieldType::DString | FieldType::DVec(_) => true,
            other => can_py_read(other, types, depth),
        },
        FieldType::Tuple(ts) => {
            assert(ft@->Tuple_0 =~= types_model(ts@));
            can_py_read_all(ts, types, depth)
        },
        FieldType::Array(t, n) => *n == 0 || can_py_read(t, types, depth),
        FieldType::Named(name) => match find_type(types, name.as_str()) {
            Some(TypeDecl::Struct(s)) => s.fields.len() > 0,
            Some(TypeDecl::Opaque(_)) => true,
            Some(TypeDecl::Enum(e)) => depth > 0 && can_py_read_enum(e, types, depth - 1),
            None => false,
        },
        _ => true,
    }
}

fn can_py_read_all(ts: &Vec<FieldType>, types: &[TypeDecl], depth: usize) -> (r: bool)
    ensures
        r == all_py_read(types_model(ts@), ts@.len(), decls_model(types@), depth as nat),
    decreases 4 * depth, ts@, 0nat,
{
    let ghost m = decls_model(types@);
    let ghost tm = types_model(ts@);
    let mut i: usize = 0;
    while i < ts.len()
        invariant
            i <= ts.len(),
            m == decls_model(types@),
            tm == types_model(ts@),
            all_py_read(tm, tm.len(), m, depth as nat) == all_py_read(
                tm,
                (tm.len() - i) as nat,
                m,
                depth as nat,
            ),
        decreases ts.len() - i,
    {
        if !can_py_read(&ts[i], types, depth) {
            return false;
        }
        i = i + 1;
    }
    true
}

fn can_py_read_enum(e: &EnumDecl, types: &[TypeDecl], depth: usize) -> (r: bool)
    ensures
        r == variants_py_read(
            e@.variants,
            e@.variants.len(),
            decls_model(types@),
            depth as nat,
        ),
    decreases 4 * depth + 2, e.variants@, 0nat,
{
    let ghost m = decls_model(types@);
    let ghost vs = e@.variants;
    let mut i: usize = 0;
    while i < e.variants.len()
        invariant
            i <= e.variants.len(),
            m == decls_model(types@),
            vs == e@.variants,
            vs.len() == e.variants@.len(),
            variants_py_read(vs, vs.len(), m, depth as nat) == variants_py_read(
                vs,
                (vs.len() - i) as nat,
                m,
                depth as nat,
            ),
        decreases e.variants.len() - i,
    {
        let v = &e.variants[i];
        assert(vs[i as int] == v@);
        if !can_py_read_all(&v.fields, types, depth) {
            return false;
        }
        i = i + 1;
    }
    true
}

/// `n` times `one`, separated by commas.
pub open spec fn repeat_list(one: Seq<char>, n: nat) -> Seq<char>
    decreases n,
{
    if n == 0 {
        Seq::empty()
    } else if n == 1 {
        one
    } else {
        repeat_list(one, (n - 1) as nat) + ", "@ + one
    }
}

fn gen_repeat(one: &str, n: usize) -> (r: String)
    ensures
        r@ == repeat_list(one@, n as nat),
{
    let mut s = String::new();
    let mut i: usize = 0;
    while i < n
        invariant
            i <= n,
            s@ == repeat_list(one@, i as nat),
        decreases n - i,
    {
        if i == 0 {
            s = String::from_str(one);
        } else {
            s = s.concat(", ").concat(one);
        }
        i = i + 1;
    }
    s
}

/// The Python expression that reads a value of type `ft` from the reader `r`,
/// with enums nested at most `depth` deep.
pub open spec fn py_read_code(ft: Ty, r: Seq<char>, types: Seq<Decl>, depth: nat) -> Seq<char>
    decreases 4 * depth, ft, 0nat,
{
    match ft {
        Ty::Unit => "None"@,
        Ty::Bool => r + ".read_bool()"@,
        Ty::U8 => r + ".read_u8()"@,
        Ty::U16 => r + ".read_u16()"@,
        Ty::U32 => r + ".read_u32()"@,
        Ty::U64 => r + ".read_u64()"@,
        Ty::I8 => r + ".read_i8()"@,
        Ty::I16 => r + ".read_i16()"@,
        Ty::I32 => r + ".read_i32()"@,
        Ty::I64 => r + ".read_i64()"@,
        Ty::F32 => r + ".read_f32()"@,
        Ty::F64 => r + ".read_f64()"@,
        Ty::Str => r + ".read_bytes()"@,
        Ty::U8Slice => r + ".read_bytes()"@,
        Ty::String => r + ".read_string()"@,
        Ty::Vec(inner) => match *inner {
            Ty::U8 => r + ".read_bytes()"@,
            Ty::String => r + ".read_vec_string()"@,
            _ => r + ".read_vec_bytes()"@,
        },
        Ty::OutU8Vec => "None"@,
        Ty::RefMut(_) => "None"@,
        Ty::Option(t) => {
            let inner = py_read_code(*t, r, types, depth);
            "None if "@ + r + ".read() == 0 else "@ + inner
        },
        Ty::DOption(t) => {
            let inner = py_read_code(*t, r, types, depth);
            "None if "@ + r + ".read() == 0 else "@ + inner
        },
        Ty::Ref(t) => match *t {
            Ty::DString => "(lambda __p, __n: ctypes.string_at(__p, __n).decode('utf-8', 'replace') if __p else \"\")("@
                + r
                + ".read(), "@
                + r
                + ".read())"@,
            Ty::DVec(_) => "(lambda __p, __n: ctypes.string_at(__p, __n) if __p else b\"\")("@
                + r
                + ".read(), "@
                + r
                + ".read())"@,
            other => py_read_code(other, r, types, depth),
        },
        Ty::Tuple(ts) => {
            let parts = py_read_list(ts, ts.len(), r, types, depth);
            "("@ + parts + ")"@
        },
        Ty::Array(t, len) => if *t is U8 && len % 8 == 0 {
            let parts = repeat_list(r + ".read_u64().to_bytes(8, 'little')"@, len / 8);
            "b''.join(["@ + parts + "])"@
        } else {
            let parts = repeat_list(py_read_code(*t, r, types, depth), len);
            "["@ + parts + "]"@
        },
        Ty::DStr => "(lambda __p, __n: ctypes.string_at(__p, __n).decode('utf-8', 'replace') if __p else \"\")("@
            + r
            + ".read(), "@
            + r
            + ".read())"@,
        Ty::DSlice(_) => "(lambda __p, __n: ctypes.string_at(__p, __n) if __p else b\"\")("@
            + r
            + ".read(), "@
            + r
            + ".read())"@,
        Ty::DString => "(lambda __a, __p, __n, __c: DStringHandle(self, __p, __n, __a))("@
            + r
            + ".read(), "@
            + r
            + ".read(), "@
            + r
            + ".read(), "@
            + r
            + ".read())"@,
        Ty::DVec(_) => "(lambda __a, __p, __n, __c: OwnedDVec(self, __p, __n, __a))("@
            + r
            + ".read(), "@
            + r
            + ".read(), "@
            + r
            + ".read(), "@
            + r
            + ".read())"@,
        Ty::Named(name) => match lookup(types, name) {
            Some(Decl::Enum(e)) => if depth == 0 {
                Seq::empty()
            } else {
                py_enum_read_expr(e, r, types, (depth - 1) as nat)
            },
            _ => name + "._from_ptr(self, "@ + r + ".read())"@,
        },
    }
}

/// The expressions that read the first `n` of `ts`, separated by commas.
pub open spec fn py_read_list(
    ts: Seq<Ty>,
    n: nat,
    r: Seq<char>,
    types: Seq<Decl>,
    depth: nat,
) -> Seq<char>
    decreases 4 * depth, ts, n,
{
    if n == 0 || n > ts.len() {
        Seq::empty()
    } else if n == 1 {
        py_read_code(ts[0], r, types, depth)
    } else {
        py_read_list(ts, (n - 1) as nat, r, types, depth) + ", "@ + py_read_code(ts[n - 1], r, types, depth)
    }
}

/// The choices between the first `k` variants of an enum, whose number is in
/// `__d`.
pub open spec fn py_read_arms(
    n: Seq<char>,
    vs: Seq<VariantModel>,
    k: nat,
    r: Seq<char>,
    types: Seq<Decl>,
    depth: nat,
) -> Seq<char>
    decreases 4 * depth + 2, vs, k,
{
    if k == 0 || k > vs.len() {
        Seq::empty()
    } else {
        let i = k - 1;
        let vn = vs[i].name;
        let fs = vs[i].fields;
        let args = py_read_list(fs, fs.len(), r, types, depth);
        py_read_arms(n, vs, i as nat, r, types, depth) + (if fs.len() == 0 {
            n + "('"@ + vn + "') if __d == "@ + dec(i as nat) + " else "@
        } else {
            n + "('"@ + vn + "', "@ + args + ") if __d == "@ + dec(i as nat) + " else "@
        })
    }
}

/// The expression that reads an enum inside another value.
pub open spec fn py_enum_read_expr(
    e: EnumModel,
    r: Seq<char>,
    types: Seq<Decl>,
    depth: nat,
) -> Seq<char>
    decreases 4 * depth + 3, e, 0nat,
{
    let n = e.name;
    let arms = py_read_arms(n, e.variants, e.variants.len(), r, types, depth);
    "(lambda __d: "@
        + arms
        + "(_ for _ in ()).throw(DynSpireError('invalid "@
        + n
        + " discriminant ' + str(__d))))("@
        + r
        + ".read())"@
}

/// The Python expression that reads a return.
pub fn gen_py_read_expr(ft: &FieldType, r: &str, types: &[TypeDecl]) -> (out: String)
    requires
        py_reads(ft@, decls_model(types@), types@.len()),
    ensures
        out@ == py_read_code(ft@, r@, decls_model(types@), types@.len()),
{
    gen_read_expr(ft, r, types, types.len())
}

fn gen_read_expr(ft: &FieldType, r: &str, types: &[TypeDecl], depth: usize) -> (out: String)
    requires
        py_reads(ft@, decls_model(types@), depth as nat),
    ensures
        out@ == py_read_code(ft@, r@, decls_model(types@), depth as nat),
    decreases 4 * depth, ft, 0nat,
{
    let ghost m = decls_model(types@);
    proof {
        reveal_with_fuel(FieldType::model, 3);
    }
    match ft {
        FieldType::Unit => String::from_str("None"),
        FieldType::Bool => String::from_str(r).concat(".read_bool()"),
        FieldType::U8 => String::from_str(r).concat(".read_u8()"),
        FieldType::U16 => String::from_str(r).concat(".read_u16()"),
        FieldType::U32 => String::from_str(r).concat(".read_u32()"),
        FieldType::U64 => String::from_str(r).concat(".read_u64()"),
        FieldType::I8 => String::from_str(r).concat(".read_i8()"),
        FieldType::I16 => String::from_str(r).concat(".read_i16()"),
        FieldType::I32 => String::from_str(r).concat(".read_i32()"),
        FieldType::I64 => String::from_str(r).concat(".read_i64()"),
        FieldType::F32 => String::from_str(r).concat(".read_f32()"),
        FieldType::F64 => String::from_str(r).concat(".read_f64()"),
        FieldType::Str | FieldType::U8Slice => String::from_str(r).concat(".read_bytes()"),
        FieldType::String => String::from_str(r).concat(".read_string()"),
        FieldType::Vec(inner) => match &**inner {
            FieldType::U8 => String::from_str(r).concat(".read_bytes()"),
            FieldType::String => String::from_str(r).concat(".read_vec_string()"),
            _ => String::from_str(r).concat(".read_vec_bytes()"),
        },
        FieldType::OutU8Vec | FieldType::RefMut(_) => String::from_str("None"),
        FieldType::Option(t) => {
            let inner = gen_read_expr(t, r, types, depth);
            String::from_str("None if ")
                .concat(r)
                .concat(".read() == 0 else ")
                .concat(inner.as_str())
        },
        FieldType::DOption(t) => {
            let inner = gen_read_expr(t, r, types, depth);
            String::from_str("None if ")
                .concat(r)
                .concat(".read() == 0 else ")
                .concat(inner.as_str())
        },
        FieldType::Ref(t) => match &**t {
            FieldType::DString => String::from_str("(lambda __p, __n: ctypes.string_at(__p, __n).decode('utf-8', 'replace') if __p else \"\")(")
                .concat(r)
                .concat(".read(), ")
                .concat(r)
                .concat(".read())"),
            FieldType::DVec(_) => String::from_str("(lambda __p, __n: ctypes.string_at(__p, __n) if __p else b\"\")(")
                .concat(r)
                .concat(".read(), ")
                .concat(r)
                .concat(".read())"),
            other => gen_read_expr(other, r, types, depth),
        },
        FieldType::Tuple(ts) => {
            assert(ft@->Tuple_0 =~= types_model(ts@));
            let parts = gen_read_list(ts, r, types, depth);
            String::from_str("(").concat(parts.as_str()).concat(")")
        },
        FieldType::Array(t, len) => {
            if matches!(&**t, FieldType::U8) && *len % 8 == 0 {
                let one = String::from_str(r).concat(".read_u64().to_bytes(8, 'little')");
                let parts = gen_repeat(one.as_str(), *len / 8);
                String::from_str("b''.join([").concat(parts.as_str()).concat("])")
            } else if *len == 0 {
                let parts = String::new();
                String::from_str("[").concat(parts.as_str()).concat("]")
            } else {
                let one = gen_read_expr(t, r, types, depth);
                let parts = gen_repeat(one.as_str(), *len);
                String::from_str("[").concat(parts.as_str()).concat("]")
            }
        },
        FieldType::DStr => String::from_str("(lambda __p, __n: ctypes.string_at(__p, __n).decode('utf-8', 'replace') if __p else \"\")(")
            .concat(r)
            .concat(".read(), ")
            .concat(r)
            .concat(".read())"),
        FieldType::DSlice(_) => String::from_str("(lambda __p, __n: ctypes.string_at(__p, __n) if __p else b\"\")(")
            .concat(r)
            .concat(".read(), ")
            .concat(r)
            .concat(".read())"),
        FieldType::DString => String::from_str("(lambda __a, __p, __n, __c: DStringHandle(self, __p, __n, __a))(")
            .concat(r)
            .concat(".read(), ")
            .concat(r)
            .concat(".read(), ")
            .concat(r)
            .concat(".read(), ")
            .concat(r)
            .concat(".read())"),
        FieldType::DVec(_) => String::from_str("(lambda __a, __p, __n, __c: OwnedDVec(self, __p, __n, __a))(")
            .concat(r)
            .concat(".read(), ")
            .concat(r)
            .concat(".read(), ")
            .concat(r)
            .concat(".read(), ")
            .concat(r)
            .concat(".read())"),
        FieldType::Named(name) => {
            let name = name.as_str();
            match find_type(types, name) {
                Some(TypeDecl::Enum(e)) => gen_enum_read_expr(e, r, types, depth - 1),
                _ => String::from_str(name)
                    .concat("._from_ptr(self, ")
                    .concat(r)
                    .concat(".read())"),
            }
        },
    }
}

fn gen_read_list(ts: &Vec<FieldType>, r: &str, types: &[TypeDecl], depth: usize) -> (out: String)
    requires
        all_py_read(types_model(ts@), ts@.len(), decls_model(types@), depth as nat),
    ensures
        out@ == py_read_list(
            types_model(ts@),
            ts@.len(),
            r@,
            decls_model(types@),
            depth as nat,
        ),
    decreases 4 * depth, ts@, 0nat,
{
    let ghost m = decls_model(types@);
    let ghost tm = types_model(ts@);
    let mut parts = String::new();
    let mut i: usize = 0;
    while i < ts.len()
        invariant
            i <= ts.len(),
            m == decls_model(types@),
            tm == types_model(ts@),
            all_py_read(tm, (tm.len() - i) as nat, m, depth as nat),
            parts@ == py_read_list(tm, i as nat, r@, m, depth as nat),
        decreases ts.len() - i,
    {
        let piece = gen_read_expr(&ts[i], r, types, depth);
        if i == 0 {
            parts = piece;
        } else {
            parts = parts.concat(", ").concat(piece.as_str());
        }
        i = i + 1;
    }
    parts
}

fn gen_enum_read_expr(e: &EnumDecl, r: &str, types: &[TypeDecl], depth: usize) -> (out: String)
    requires
        variants_py_read(
            e@.variants,
            e@.variants.len(),
            decls_model(types@),
            depth as nat,
        ),
    ensures
        out@ == py_enum_read_expr(e@, r@, decls_model(types@), depth as nat),
    decreases 4 * depth + 2, e.variants@, 0nat,
{
    let ghost m = decls_model(types@);
    let ghost vs = e@.variants;
    let n = e.name.as_str();
    let mut arms = String::new();
    let mut i: usize = 0;
    while i < e.variants.len()
        invariant
            i <= e.variants.len(),
            m == decls_model(types@),
            vs == e@.variants,
            vs.len() == e.variants@.len(),
            n@ == e@.name,
            variants_py_read(vs, (vs.len() - i) as nat, m, depth as nat),
            arms@ == py_read_arms(n@, vs, i as nat, r@, m, depth as nat),
        decreases e.variants.len() - i,
    {
        let v = &e.variants[i];
        assert(vs[i as int] == v@);
        let vn = v.name.as_str();
        let piece = if v.fields.len() == 0 {
            String::from_str(n)
                .concat("('")
                .concat(vn)
                .concat("') if __d == ")
                .concat(decimal(i as u64).as_str())
                .concat(" else ")
        } else {
            let args = gen_read_list(&v.fields, r, types, depth);
            String::from_str(n)
                .concat("('")
                .concat(vn)
                .concat("', ")
                .concat(args.as_str())
                .concat(") if __d == ")
                .concat(decimal(i as u64).as_str())
                .concat(" else ")
        };
        arms = arms.concat(piece.as_str());
        i = i + 1;
    }
    String::from_str("(lambda __d: ")
        .concat(arms.as_str())
        .concat("(_ for _ in ()).throw(DynSpireError('invalid ")
        .concat(n)
        .concat(" discriminant ' + str(__d))))(")
        .concat(r)
        .concat(".read())")
}

/// Whether Python statements can decode a return of type `ft`.
pub open spec fn py_decodes(ft: Ty, types: Seq<Decl>) -> bool
    decreases ft,
{
    match ft {
        Ty::Unit => true,
        Ty::Named(name) => match lookup(types, name) {
            None => false,
            Some(Decl::Enum(e)) => variants_py_read(
                e.variants,
                e.variants.len(),
                types,
                types.len(),
            ),
            _ => true,
        },
        Ty::Option(t) => py_decodes(*t, types),
        _ => py_reads(ft, types, types.len()),
    }
}

/// Whether Python statements can decode a return of type `ft`.
pub fn can_py_decode(ft: &FieldType, types: &[TypeDecl]) -> (r: bool)
    ensures
        r == py_decodes(ft@, decls_model(types@)),
    decreases ft,
{
    match ft {
        FieldType::Unit => true,
        FieldType::Named(name) => match find_type(types, name.as_str()) {
            None => false,
            Some(TypeDecl::Enum(e)) => can_py_read_enum(e, types, types.len()),
            _ => true,
        },
        FieldType::Option(t) => can_py_decode(t, types),
        _ => can_py_read(ft, types, types.len()),
    }
}

/// The branches that decode the first `k` variants of an enum.
pub open spec fn py_read_variants(
    e: EnumModel,
    k: nat,
    r: Seq<char>,
    types: Seq<Decl>,
    pad: Seq<char>,
) -> Seq<char>
    decreases k,
{
    if k == 0 {
        pad + "_disc = "@ + r + ".read()\n"@
    } else {
        let i = k - 1;
        let inpad = pad + "    "@;
        let kw = if i == 0 {
            "if"@
        } else {
            "elif"@
        };
        let n = e.name;
        let vn = e.variants[i].name;
        let fs = e.variants[i].fields;
        let args = py_read_list(fs, fs.len(), r, types, types.len());
        py_read_variants(e, i as nat, r, types, pad) + (pad
            + kw
            + " _disc == "@
            + dec(i as nat)
            + ":\n"@) + (if fs.len() == 0 {
            inpad + "_v = "@ + n + "('"@ + vn + "')\n"@
        } else {
            inpad + "_v = "@ + n + "('"@ + vn + "', "@ + args + ")\n"@
        })
    }
}

/// The statements that decode an enum into `_v`.
pub open spec fn py_enum_read_code(
    e: EnumModel,
    r: Seq<char>,
    types: Seq<Decl>,
    pad: Seq<char>,
) -> Seq<char> {
    let inpad = pad + "    "@;
    let n = e.name;
    py_read_variants(e, e.variants.len(), r, types, pad) + (pad
        + "else:\n"@
        + inpad
        + "raise DynSpireError('invalid "@
        + n
        + " discriminant ' + str(_disc))\n"@)
}

/// The statements, indented by `pad`, that decode a return of type `ft` into
/// `_v`; none for `()`.
pub open spec fn py_decode_code(
    ft: Ty,
    r: Seq<char>,
    types: Seq<Decl>,
    pad: Seq<char>,
) -> Seq<char>
    decreases ft,
{
    let inpad = pad + "    "@;
    match ft {
        Ty::Unit => Seq::empty(),
        Ty::Named(name) => match lookup(types, name) {
            Some(Decl::Enum(e)) => py_enum_read_code(e, r, types, pad),
            _ => pad + "_v = "@ + name + "._from_ptr(self, "@ + r + ".read())\n"@,
        },
        Ty::Option(t) => {
            let rest = py_decode_code(*t, r, types, inpad);
            pad
                + "_opt = "@
                + r
                + ".read()\n"@
                + pad
                + "if _opt == 0:\n"@
                + inpad
                + "_v = None\n"@
                + pad
                + "else:\n"@
                + rest
        },
        _ => {
            let value = py_read_code(ft, r, types, types.len());
            pad + "_v = "@ + value + "\n"@
        },
    }
}

/// The Python statements that decode the value of a return into `_v`. Owned
/// leaf values note their allocation in the reader, which the caller releases;
/// handles release themselves.
pub fn gen_py_decode_block(ft: &FieldType, r: &str, types: &[TypeDecl], pad: &str) -> (out: String)
    requires
        py_decodes(ft@, decls_model(types@)),
    ensures
        out@ == py_decode_code(ft@, r@, decls_model(types@), pad@),
    decreases ft,
{
    match ft {
        FieldType::Unit => String::new(),
        FieldType::Named(name) => {
            let name = name.as_str();
            match find_type(types, name) {
                Some(TypeDecl::Enum(e)) => gen_py_enum_read_block(e, r, types, pad),
                _ => String::from_str(pad)
                    .concat("_v = ")
                    .concat(name)
                    .concat("._from_ptr(self, ")
                    .concat(r)
                    .concat(".read())\n"),
            }
        },
        FieldType::Option(t) => {
            let inpad = String::from_str(pad).concat("    ");
            let rest = gen_py_decode_block(t, r, types, inpad.as_str());
            String::from_str(pad)
                .concat("_opt = ")
                .concat(r)
                .concat(".read()\n")
                .concat(pad)
                .concat("if _opt == 0:\n")
                .concat(inpad.as_str())
                .concat("_v = None\n")
                .concat(pad)
                .concat("else:\n")
                .concat(rest.as_str())
        },
        _ => {
            let value = gen_py_read_expr(ft, r, types);
            String::from_str(pad).concat("_v = ").concat(value.as_str()).concat("\n")
        },
    }
}

/// The Python statements that decode an enum into `_v`.
pub fn gen_py_enum_read_block(e: &EnumDecl, r: &str, types: &[TypeDecl], pad: &str) -> (out: String)
    requires
        variants_py_read(
            e@.variants,
            e@.variants.len(),
            decls_model(types@),
            types@.len(),
        ),
    ensures
        out@ == py_enum_read_code(e@, r@, decls_model(types@), pad@),
{
    let ghost m = decls_model(types@);
    let ghost vs = e@.variants;
    let inpad = String::from_str(pad).concat("    ");
    let n = e.name.as_str();
    let mut s = String::from_str(pad).concat("_disc = ").concat(r).concat(".read()\n");
    let mut i: usize = 0;
    while i < e.variants.len()
        invariant
            i <= e.variants.len(),
            m == decls_model(types@),
            n@ == e@.name,
            inpad@ == pad@ + "    "@,
            vs == e@.variants,
            vs.len() == e.variants@.len(),
            m.len() == types@.len(),
            variants_py_read(vs, (vs.len() - i) as nat, m, types@.len()),
            s@ == py_read_variants(e@, i as nat, r@, m, pad@),
        decreases e.variants.len() - i,
    {
        let v = &e.variants[i];
        assert(e@.variants[i as int] == v@);
        let vn = v.name.as_str();
        let kw = if i == 0 {
            "if"
        } else {
            "elif"
        };
        let branch = String::from_str(pad)
            .concat(kw)
            .concat(" _disc == ")
            .concat(decimal(i as u64).as_str())
            .concat(":\n");
        let value = if v.fields.len() == 0 {
            String::from_str(inpad.as_str())
                .concat("_v = ")
                .concat(n)
                .concat("('")
                .concat(vn)
                .concat("')\n")
        } else {
            let args = gen_read_list(&v.fields, r, types, types.len());
            String::from_str(inpad.as_str())
                .concat("_v = ")
                .concat(n)
                .concat("('")
                .concat(vn)
                .concat("', ")
                .concat(args.as_str())
                .concat(")\n")
        };
        s = s.concat(branch.as_str()).concat(value.as_str());
        i = i + 1;
    }
    let invalid = String::from_str(pad)
        .concat("else:\n")
        .concat(inpad.as_str())
        .concat("raise DynSpireError('invalid ")
        .concat(n)
        .concat(" discriminant ' + str(_disc))\n");
    s.concat(invalid.as_str())
}

// ---------------------------------------------------------------------------
// Type classes
// ---------------------------------------------------------------------------

/// The ctypes type of a field of type `ft`, with enums nested at most `depth`
/// deep. A struct with fields has a mirror class; a tuple is a structure with
/// members `_0`, `_1` and so on; an opaque value is an address.
pub open spec fn ctypes_field(ft: Ty, types: Seq<Decl>, depth: nat) -> Seq<char>
    decreases 4 * depth, ft, 0nat,
{
    match ft {
        Ty::Bool => "ctypes.c_uint8"@,
        Ty::U8 => "ctypes.c_uint8"@,
        Ty::U16 => "ctypes.c_uint16"@,
        Ty::U32 => "ctypes.c_uint32"@,
        Ty::U64 => "ctypes.c_uint64"@,
        Ty::I8 => "ctypes.c_int8"@,
        Ty::I16 => "ctypes.c_int16"@,
        Ty::I32 => "ctypes.c_int32"@,
        Ty::I64 => "ctypes.c_int64"@,
        Ty::F32 => "ctypes.c_float"@,
        Ty::F64 => "ctypes.c_double"@,
        Ty::String => "DString"@,
        Ty::DString => "DString"@,
        Ty::Vec(_) => "DVec"@,
        Ty::DVec(_) => "DVec"@,
        Ty::Str => "DStr"@,
        Ty::U8Slice => "DStr"@,
        Ty::DStr => "DStr"@,
        Ty::DSlice(_) => "DStr"@,
        Ty::DOption(_) => "DOption"@,
        Ty::Option(_) => "DOption"@,
        Ty::Ref(t) => match *t {
            Ty::DString => "DStr"@,
            Ty::DVec(_) => "DStr"@,
            other => ctypes_field(other, types, depth),
        },
        Ty::Named(name) => match lookup(types, name) {
            Some(Decl::Struct(st)) => if st.fields.len() == 0 {
                "type('"@ + name + "', (ctypes.Structure,), {'_fields_': []})"@
            } else {
                name + "Ctypes"@
            },
            Some(Decl::Opaque(_)) => "ctypes.c_uint64"@,
            Some(Decl::Enum(e)) => if depth == 0 {
                name + "Ctypes"@
            } else {
                enum_ctypes(e, types, (depth - 1) as nat)
            },
            None => name + "Ctypes"@,
        },
        Ty::Tuple(ts) => {
            let inner = ctypes_list(ts, ts.len(), types, depth);
            "type('Tuple', (ctypes.Structure,), {'_fields_': ["@ + inner + "]})"@
        },
        Ty::Array(t, len) => {
            let ct = ctypes_field(*t, types, depth);
            "("@ + ct + " * "@ + dec(len as nat) + ")"@
        },
        _ => "ctypes.c_uint64"@,
    }
}

/// The members of a structure with the first `n` of `ts` as its parts.
pub open spec fn ctypes_list(ts: Seq<Ty>, n: nat, types: Seq<Decl>, depth: nat) -> Seq<char>
    decreases 4 * depth, ts, n,
{
    if n == 0 || n > ts.len() {
        Seq::empty()
    } else {
        let i = n - 1;
        let ct = ctypes_field(ts[n - 1], types, depth);
        if n == 1 {
            "('_"@ + dec(i as nat) + "', "@ + ct + ")"@
        } else {
            ctypes_list(ts, (n - 1) as nat, types, depth) + ", "@ + ("('_"@
                + dec(i as nat)
                + "', "@
                + ct
                + ")"@)
        }
    }
}

/// The members of the payload for the first `k` variants: one structure for
/// each.
pub open spec fn payload_list(
    n: Seq<char>,
    vs: Seq<VariantModel>,
    k: nat,
    types: Seq<Decl>,
    depth: nat,
) -> Seq<char>
    decreases 4 * depth + 2, vs, k,
{
    if k == 0 || k > vs.len() {
        Seq::empty()
    } else {
        let vn = vs[k - 1].name;
        let members = ctypes_list(vs[k - 1].fields, vs[k - 1].fields.len(), types, depth);
        if k == 1 {
            "('"@
                + vn
                + "', type('"@
                + n
                + vn
                + "', (ctypes.Structure,), {'_fields_': ["@
                + members
                + "]}))"@
        } else {
            payload_list(n, vs, (k - 1) as nat, types, depth) + ", "@ + ("('"@
                + vn
                + "', type('"@
                + n
                + vn
                + "', (ctypes.Structure,), {'_fields_': ["@
                + members
                + "]}))"@)
        }
    }
}

/// Whether some variant has fields.
pub open spec fn has_payload(e: EnumModel) -> bool {
    exists|i: int| 0 <= i < e.variants.len() && (#[trigger] e.variants[i]).fields.len() > 0
}

/// The ctypes type of an enum: its number, and if it has any fields, behind
/// that the union of them.
pub open spec fn enum_ctypes(e: EnumModel, types: Seq<Decl>, depth: nat) -> Seq<char>
    decreases 4 * depth + 3, e, 0nat,
{
    let n = e.name;
    if has_payload(e) {
        let payload = payload_list(n, e.variants, e.variants.len(), types, depth);
        "type('"@
            + n
            + "', (ctypes.Structure,), {'_fields_': [('tag', ctypes.c_uint32), ('payload', type('"@
            + n
            + "Payload', (ctypes.Union,), {'_fields_': ["@
            + payload
            + "]}))]})"@
    } else {
        "ctypes.c_uint32"@
    }
}

/// The ctypes type of a field.
pub fn py_ctypes_field(ft: &FieldType, types: &[TypeDecl]) -> (r: String)
    ensures
        r@ == ctypes_field(ft@, decls_model(types@), types@.len()),
{
    gen_ctypes_field(ft, types, types.len())
}

fn gen_ctypes_field(ft: &FieldType, types: &[TypeDecl], depth: usize) -> (r: String)
    ensures
        r@ == ctypes_field(ft@, decls_model(types@), depth as nat),
    decreases 4 * depth, ft, 0nat,
{
    proof {
        reveal_with_fuel(FieldType::model, 2);
    }
    match ft {
        FieldType::Bool | FieldType::U8 => String::from_str("ctypes.c_uint8"),
        FieldType::U16 => String::from_str("ctypes.c_uint16"),
        FieldType::U32 => String::from_str("ctypes.c_uint32"),
        FieldType::U64 => String::from_str("ctypes.c_uint64"),
        FieldType::I8 => String::from_str("ctypes.c_int8"),
        FieldType::I16 => String::from_str("ctypes.c_int16"),
        FieldType::I32 => String::from_str("ctypes.c_int32"),
        FieldType::I64 => String::from_str("ctypes.c_int64"),
        FieldType::F32 => String::from_str("ctypes.c_float"),
        FieldType::F64 => String::from_str("ctypes.c_double"),
        FieldType::String | FieldType::DString => String::from_str("DString"),
        FieldType::Vec(_) | FieldType::DVec(_) => String::from_str("DVec"),
        FieldType::Str
        | FieldType::U8Slice
        | FieldType::DStr
        | FieldType::DSlice(_) => String::from_str("DStr"),
        FieldType::DOption(_) | FieldType::Option(_) => String::from_str("DOption"),
        FieldType::Ref(t) => match &**t {
            FieldType::DString | FieldType::DVec(_) => String::from_str("DStr"),
            other => gen_ctypes_field(other, types, depth),
        },
        FieldType::Named(name) => {
            let name = name.as_str();
            match find_type(types, name) {
                Some(TypeDecl::Struct(st)) => if st.fields.len() == 0 {
                    String::from_str("type('")
                        .concat(name)
                        .concat("', (ctypes.Structure,), {'_fields_': []})")
                } else {
                    String::from_str(name).concat("Ctypes")
                },
                Some(TypeDecl::Opaque(_)) => String::from_str("ctypes.c_uint64"),
                Some(TypeDecl::Enum(e)) => if depth == 0 {
                    String::from_str(name).concat("Ctypes")
                } else {
                    gen_enum_ctypes(e, types, depth - 1)
                },
                None => String::from_str(name).concat("Ctypes"),
            }
        },
        FieldType::Tuple(ts) => {
            assert(ft@->Tuple_0 =~= types_model(ts@));
            let inner = gen_ctypes_list(ts, types, depth);
            String::from_str("type('Tuple', (ctypes.Structure,), {'_fields_': [")
                .concat(inner.as_str())
                .concat("]})")
        },
        FieldType::Array(t, len) => {
            let len: usize = *len;
            let ct = gen_ctypes_field(t, types, depth);
            String::from_str("(")
                .concat(ct.as_str())
                .concat(" * ")
                .concat(decimal(len as u64).as_str())
                .concat(")")
        },
        _ => String::from_str("ctypes.c_uint64"),
    }
}

fn gen_ctypes_list(ts: &Vec<FieldType>, types: &[TypeDecl], depth: usize) -> (r: String)
    ensures
        r@ == ctypes_list(types_model(ts@), ts@.len(), decls_model(types@), depth as nat),
    decreases 4 * depth, ts@, 0nat,
{
    let ghost m = decls_model(types@);
    let ghost tm = types_model(ts@);
    let mut inner = String::new();
    let mut i: usize = 0;
    while i < ts.len()
        invariant
            i <= ts.len(),
            m == decls_model(types@),
            tm == types_model(ts@),
            inner@ == ctypes_list(tm, i as nat, m, depth as nat),
        decreases ts.len() - i,
    {
        let ct = gen_ctypes_field(&ts[i], types, depth);
        let piece = String::from_str("('_")
            .concat(decimal(i as u64).as_str())
            .concat("', ")
            .concat(ct.as_str())
            .concat(")");
        if i == 0 {
            inner = piece;
        } else {
            inner = inner.concat(", ").concat(piece.as_str());
        }
        i = i + 1;
    }
    inner
}

fn gen_enum_ctypes(e: &EnumDecl, types: &[TypeDecl], depth: usize) -> (r: String)
    ensures
        r@ == enum_ctypes(e@, decls_model(types@), depth as nat),
    decreases 4 * depth + 2, e.variants@, 0nat,
{
    let ghost m = decls_model(types@);
    let ghost vs = e@.variants;
    let n = e.name.as_str();
    let mut payload = String::new();
    let mut some = false;
    let mut i: usize = 0;
    while i < e.variants.len()
        invariant
            i <= e.variants.len(),
            m == decls_model(types@),
            vs == e@.variants,
            vs.len() == e.variants@.len(),
            n@ == e@.name,
            some == exists|k: int| 0 <= k < i && (#[trigger] vs[k]).fields.len() > 0,
            payload@ == payload_list(n@, vs, i as nat, m, depth as nat),
        decreases e.variants.len() - i,
    {
        let v = &e.variants[i];
        assert(vs[i as int] == v@);
        let vn = v.name.as_str();
        if v.fields.len() > 0 {
            some = true;
        }
        let members = gen_ctypes_list(&v.fields, types, depth);
        let piece = String::from_str("('")
            .concat(vn)
            .concat("', type('")
            .concat(n)
            .concat(vn)
            .concat("', (ctypes.Structure,), {'_fields_': [")
            .concat(members.as_str())
            .concat("]}))");
        if i == 0 {
            payload = piece;
        } else {
            payload = payload.concat(", ").concat(piece.as_str());
        }
        i = i + 1;
    }
    if some {
        String::from_str("type('")
            .concat(n)
            .concat("', (ctypes.Structure,), {'_fields_': [('tag', ctypes.c_uint32), ('payload', type('")
            .concat(n)
            .concat("Payload', (ctypes.Union,), {'_fields_': [")
            .concat(payload.as_str())
            .concat("]}))]})")
    } else {
        String::from_str("ctypes.c_uint32")
    }
}

/// The Python default of a field of type `ft`.
pub open spec fn default_value(ft: Ty) -> Seq<char>
    decreases ft,
{
    match ft {
        Ty::Bool => "0"@,
        Ty::U8 => "0"@,
        Ty::U16 => "0"@,
        Ty::U32 => "0"@,
        Ty::U64 => "0"@,
        Ty::I8 => "0"@,
        Ty::I16 => "0"@,
        Ty::I32 => "0"@,
        Ty::I64 => "0"@,
        Ty::F32 => "0.0"@,
        Ty::F64 => "0.0"@,
        Ty::Named(name) => name + "._default()"@,
        Ty::Ref(t) => default_value(*t),
        _ => "None"@,
    }
}

/// The Python default of a field.
pub fn py_default_value(ft: &FieldType) -> (r: String)
    ensures
        r@ == default_value(ft@),
    decreases ft,
{
    match ft {
        FieldType::Bool
        | FieldType::U8
        | FieldType::U16
        | FieldType::U32
        | FieldType::U64
        | FieldType::I8
        | FieldType::I16
        | FieldType::I32
        | FieldType::I64 => String::from_str("0"),
        FieldType::F32 | FieldType::F64 => String::from_str("0.0"),
        FieldType::Named(name) => name.clone().concat("._default()"),
        FieldType::Ref(t) => py_default_value(t),
        _ => String::from_str("None"),
    }
}

/// What a generated class says of each field in one of its lists.
#[derive(Clone, Copy)]
pub enum FieldItem {
    Slot,
    Parameter,
    Value,
    Buffer,
    Default,
    Repr,
    Same,
}

/// The item of a list for the field `f` of type `ft`.
pub open spec fn field_item(item: FieldItem, f: Seq<char>, ft: Ty) -> Seq<char> {
    match item {
        FieldItem::Slot => "'_"@ + f + "'"@,
        FieldItem::Parameter => f,
        FieldItem::Value => "self._"@ + f,
        FieldItem::Buffer => "buf."@ + f,
        FieldItem::Default => {
            let d = default_value(ft);
            f + "="@ + d
        },
        FieldItem::Repr => "'"@ + f + "=' + repr(self._"@ + f + ")"@,
        FieldItem::Same => "self._"@ + f + " == other._"@ + f,
    }
}

/// The items for the first `n` fields, separated by `sep`.
pub open spec fn item_list(
    item: FieldItem,
    fs: Seq<(Seq<char>, Ty)>,
    n: nat,
    sep: Seq<char>,
) -> Seq<char>
    decreases n,
{
    if n == 0 {
        Seq::empty()
    } else if n == 1 {
        field_item(item, fs[0].0, fs[0].1)
    } else {
        item_list(item, fs, (n - 1) as nat, sep) + sep + field_item(item, fs[n - 1].0, fs[n - 1].1)
    }
}

fn gen_items(item: FieldItem, fields: &Vec<(String, FieldType)>, sep: &str) -> (r: String)
    ensures
        r@ == item_list(item, fields_model(fields@), fields@.len(), sep@),
{
    let mut s = String::new();
    let mut i: usize = 0;
    while i < fields.len()
        invariant
            i <= fields.len(),
            s@ == item_list(item, fields_model(fields@), i as nat, sep@),
        decreases fields.len() - i,
    {
        let f = fields[i].0.as_str();
        let one = match item {
            FieldItem::Slot => String::from_str("'_").concat(f).concat("'"),
            FieldItem::Parameter => String::from_str(f),
            FieldItem::Value => String::from_str("self._").concat(f),
            FieldItem::Buffer => String::from_str("buf.").concat(f),
            FieldItem::Default => {
                let d = py_default_value(&fields[i].1);
                String::from_str(f).concat("=").concat(d.as_str())
            },
            FieldItem::Repr => String::from_str("'")
                .concat(f)
                .concat("=' + repr(self._")
                .concat(f)
                .concat(")"),
            FieldItem::Same => String::from_str("self._").concat(f).concat(" == other._").concat(f),
        };
        if i == 0 {
            s = one;
        } else {
            s = s.concat(sep).concat(one.as_str());
        }
        i = i + 1;
    }
    s
}

/// The ctypes entries of the first `n` fields.
pub open spec fn mirror_lines(fs: Seq<(Seq<char>, Ty)>, n: nat, types: Seq<Decl>) -> Seq<char>
    decreases n,
{
    if n == 0 {
        Seq::empty()
    } else {
        let f = fs[n - 1].0;
        let ct = ctypes_field(fs[n - 1].1, types, types.len());
        mirror_lines(fs, (n - 1) as nat, types) + ("        ('"@ + f + "', "@ + ct + "),\n"@)
    }
}

/// The assignments of the first `n` fields in the constructor.
pub open spec fn init_lines(fs: Seq<(Seq<char>, Ty)>, n: nat) -> Seq<char>
    decreases n,
{
    if n == 0 {
        Seq::empty()
    } else {
        let f = fs[n - 1].0;
        let d = default_value(fs[n - 1].1);
        init_lines(fs, (n - 1) as nat) + ("        self._"@
            + f
            + " = "@
            + f
            + " if "@
            + f
            + " is not None else "@
            + d
            + "\n"@)
    }
}

/// The accessors of the first `n` fields.
pub open spec fn property_lines(fs: Seq<(Seq<char>, Ty)>, n: nat) -> Seq<char>
    decreases n,
{
    if n == 0 {
        Seq::empty()
    } else {
        let f = fs[n - 1].0;
        property_lines(fs, (n - 1) as nat) + ("    @property\n    def "@
            + f
            + "(self):\n        return self._"@
            + f
            + "\n\n"@)
    }
}

/// The Python class of a struct: a ctypes mirror and a wrapper with field
/// accessors.
pub open spec fn py_struct_code(s: StructModel, types: Seq<Decl>) -> Seq<char> {
    let n = s.name;
    let fs = s.fields;
    let k = fs.len();
    let mirror = mirror_lines(fs, k, types);
    let slots = item_list(FieldItem::Slot, fs, k, ", "@);
    let sep = if k == 0 {
        ""@
    } else {
        ", "@
    };
    let params = item_list(FieldItem::Parameter, fs, k, ", "@);
    let inits = init_lines(fs, k);
    let values = item_list(FieldItem::Value, fs, k, ", "@);
    let buffers = item_list(FieldItem::Buffer, fs, k, ", "@);
    let defaults = item_list(FieldItem::Default, fs, k, ", "@);
    let properties = property_lines(fs, k);
    let reprs = item_list(FieldItem::Repr, fs, k, " + ', ' + "@);
    let sames = item_list(FieldItem::Same, fs, k, " and "@);
    "class "@
        + n
        + r#"Ctypes(ctypes.Structure):
    _fields_ = [
"#@
        + mirror
        + r#"    ]


class "#@
        + n
        + "(OpaqueHandle):\n    __slots__ = ("@
        + slots
        + sep
        + r#"'_client', '_ptr', '_cbuf')

    def __init__(self, "#@
        + params
        + r#"):
        self._client = None
        self._cbuf = None
        self._ptr = 0
"#@
        + inits
        + "        self._cbuf = "@
        + n
        + "Ctypes("@
        + values
        + r#")
        self._ptr = ctypes.addressof(self._cbuf)

    @classmethod
    def _from_ptr(cls, client, ptr):
        buf = "#@
        + n
        + r#"Ctypes()
        ctypes.memmove(ctypes.addressof(buf), ptr, ctypes.sizeof(buf))
        obj = cls("#@
        + buffers
        + r#")
        obj._client = client
        obj._ptr = ptr
        return obj

    @classmethod
    def _default(cls):
        return cls("#@
        + defaults
        + ")\n\n"@
        + properties
        + "    def __repr__(self):\n        return '"@
        + n
        + "(' + "@
        + reprs
        + r#" + ')'

    def __eq__(self, other):
        return isinstance(other, "#@
        + n
        + ") and "@
        + sames
        + r#"

    def __hash__(self):
        return hash(("#@
        + values
        + ",))\n\n"@
}

/// The Python class of a struct.
pub fn gen_py_struct_class(s: &StructDecl, types: &[TypeDecl]) -> (r: String)
    ensures
        r@ == py_struct_code(s@, decls_model(types@)),
{
    let ghost m = decls_model(types@);
    let ghost fs = s@.fields;
    let n = s.name.as_str();
    let mut mirror = String::new();
    let mut inits = String::new();
    let mut properties = String::new();
    let mut i: usize = 0;
    while i < s.fields.len()
        invariant
            i <= s.fields.len(),
            fs == s@.fields,
            m == decls_model(types@),
            m.len() == types@.len(),
            mirror@ == mirror_lines(fs, i as nat, m),
            inits@ == init_lines(fs, i as nat),
            properties@ == property_lines(fs, i as nat),
        decreases s.fields.len() - i,
    {
        assert(fs[i as int] == (s.fields@[i as int].0@, s.fields@[i as int].1@));
        let f = s.fields[i].0.as_str();
        let ct = py_ctypes_field(&s.fields[i].1, types);
        let d = py_default_value(&s.fields[i].1);
        let a = String::from_str("        ('")
            .concat(f)
            .concat("', ")
            .concat(ct.as_str())
            .concat("),\n");
        let b = String::from_str("        self._")
            .concat(f)
            .concat(" = ")
            .concat(f)
            .concat(" if ")
            .concat(f)
            .concat(" is not None else ")
            .concat(d.as_str())
            .concat("\n");
        let c = String::from_str("    @property\n    def ")
            .concat(f)
            .concat("(self):\n        return self._")
            .concat(f)
            .concat("\n\n");
        mirror = mirror.concat(a.as_str());
        inits = inits.concat(b.as_str());
        properties = properties.concat(c.as_str());
        i = i + 1;
    }
    let slots = gen_items(FieldItem::Slot, &s.fields, ", ");
    let sep = if s.fields.len() == 0 {
        ""
    } else {
        ", "
    };
    let params = gen_items(FieldItem::Parameter, &s.fields, ", ");
    let values = gen_items(FieldItem::Value, &s.fields, ", ");
    let buffers = gen_items(FieldItem::Buffer, &s.fields, ", ");
    let defaults = gen_items(FieldItem::Default, &s.fields, ", ");
    let reprs = gen_items(FieldItem::Repr, &s.fields, " + ', ' + ");
    let sames = gen_items(FieldItem::Same, &s.fields, " and ");
    String::from_str("class ")
        .concat(n)
        .concat(r#"Ctypes(ctypes.Structure):
    _fields_ = [
"#)
        .concat(mirror.as_str())
        .concat(r#"    ]


class "#)
        .concat(n)
        .concat("(OpaqueHandle):\n    __slots__ = (")
        .concat(slots.as_str())
        .concat(sep)
        .concat(r#"'_client', '_ptr', '_cbuf')

    def __init__(self, "#)
        .concat(params.as_str())
        .concat(r#"):
        self._client = None
        self._cbuf = None
        self._ptr = 0
"#)
        .concat(inits.as_str())
        .concat("        self._cbuf = ")
        .concat(n)
        .concat("Ctypes(")
        .concat(values.as_str())
        .concat(r#")
        self._ptr = ctypes.addressof(self._cbuf)

    @classmethod
    def _from_ptr(cls, client, ptr):
        buf = "#)
        .concat(n)
        .concat(r#"Ctypes()
        ctypes.memmove(ctypes.addressof(buf), ptr, ctypes.sizeof(buf))
        obj = cls("#)
        .concat(buffers.as_str())
        .concat(r#")
        obj._client = client
        obj._ptr = ptr
        return obj

    @classmethod
    def _default(cls):
        return cls("#)
        .concat(defaults.as_str())
        .concat(")\n\n")
        .concat(properties.as_str())
        .concat("    def __repr__(self):\n        return '")
        .concat(n)
        .concat("(' + ")
        .concat(reprs.as_str())
        .concat(r#" + ')'

    def __eq__(self, other):
        return isinstance(other, "#)
        .concat(n)
        .concat(") and ")
        .concat(sames.as_str())
        .concat(r#"

    def __hash__(self):
        return hash(("#)
        .concat(values.as_str())
        .concat(",))\n\n")
}

/// The names `_f0`, `_f1`, ... of the first `n` arguments.
pub open spec fn argument_names(n: nat) -> Seq<char>
    decreases n,
{
    if n == 0 {
        Seq::empty()
    } else {
        let i = n - 1;
        if n == 1 {
            "_f"@ + dec(i as nat)
        } else {
            argument_names(i as nat) + ", "@ + ("_f"@ + dec(i as nat))
        }
    }
}

/// The Python class of an enum up to the constructors of its first `k`
/// variants.
pub open spec fn py_enum_variants(e: EnumModel, k: nat) -> Seq<char>
    decreases k,
{
    if k == 0 {
        let n = e.name;
        "class "@
            + n
            + r#":
    __slots__ = ('variant', 'fields')

    def __init__(self, variant, *fields):
        self.variant = variant
        self.fields = fields

    def __eq__(self, other):
        return isinstance(other, "#@
            + n
            + r#") and self.variant == other.variant and self.fields == other.fields

    def __hash__(self):
        return hash((self.variant, self.fields))

    def __repr__(self):
        if self.fields:
            inner = ', '.join(repr(f) for f in self.fields)
            return '"#@
            + n
            + ".' + self.variant + '(' + inner + ')'\n        return '"@
            + n
            + ".' + self.variant\n\n"@
    } else {
        let vn = e.variants[k - 1].name;
        let fs = e.variants[k - 1].fields;
        let args = argument_names(fs.len());
        py_enum_variants(e, (k - 1) as nat) + (if fs.len() == 0 {
            "    @classmethod\n    def "@ + vn + "(cls):\n        return cls('"@ + vn + "')\n\n"@
        } else {
            "    @classmethod\n    def "@
                + vn
                + "(cls, "@
                + args
                + "):\n        return cls('"@
                + vn
                + "', "@
                + args
                + ")\n\n"@
        })
    }
}

/// The Python class of an enum: a variant name and a tuple of fields, with one
/// constructor for each variant.
pub open spec fn py_enum_code(e: EnumModel) -> Seq<char> {
    py_enum_variants(e, e.variants.len()) + "\n"@
}

/// The Python class of an enum.
pub fn gen_py_enum_class(e: &EnumDecl) -> (r: String)
    ensures
        r@ == py_enum_code(e@),
{
    let n = e.name.as_str();
    let mut s = String::from_str("class ")
        .concat(n)
        .concat(r#":
    __slots__ = ('variant', 'fields')

    def __init__(self, variant, *fields):
        self.variant = variant
        self.fields = fields

    def __eq__(self, other):
        return isinstance(other, "#)
        .concat(n)
        .concat(r#") and self.variant == other.variant and self.fields == other.fields

    def __hash__(self):
        return hash((self.variant, self.fields))

    def __repr__(self):
        if self.fields:
            inner = ', '.join(repr(f) for f in self.fields)
            return '"#)
        .concat(n)
        .concat(".' + self.variant + '(' + inner + ')'\n        return '")
        .concat(n)
        .concat(".' + self.variant\n\n");
    let mut i: usize = 0;
    while i < e.variants.len()
        invariant
            i <= e.variants.len(),
            s@ == py_enum_variants(e@, i as nat),
        decreases e.variants.len() - i,
    {
        let v = &e.variants[i];
        assert(e@.variants[i as int] == v@);
        let vn = v.name.as_str();
        let piece = if v.fields.len() == 0 {
            String::from_str("    @classmethod\n    def ")
                .concat(vn)
                .concat("(cls):\n        return cls('")
                .concat(vn)
                .concat("')\n\n")
        } else {
            let mut args = String::new();
            let mut j: usize = 0;
            while j < v.fields.len()
                invariant
                    j <= v.fields.len(),
                    args@ == argument_names(j as nat),
                decreases v.fields.len() - j,
            {
                let one = String::from_str("_f").concat(decimal(j as u64).as_str());
                if j == 0 {
                    args = one;
                } else {
                    args = args.concat(", ").concat(one.as_str());
                }
                j = j + 1;
            }
            String::from_str("    @classmethod\n    def ")
                .concat(vn)
                .concat("(cls, ")
                .concat(args.as_str())
                .concat("):\n        return cls('")
                .concat(vn)
                .concat("', ")
                .concat(args.as_str())
                .concat(")\n\n")
        };
        s = s.concat(piece.as_str());
        i = i + 1;
    }
    s.concat("\n")
}

/// The Python class of a declaration.
pub open spec fn py_decl_code(d: Decl, types: Seq<Decl>) -> Seq<char> {
    match d {
        Decl::Struct(s) => if s.fields.len() == 0 {
            let name = s.name;
            "class "@
                + name
                + r#"(OpaqueHandle):
    pass


"#@
        } else {
            py_struct_code(s, types)
        },
        Decl::Opaque(name) => "class "@
            + name
            + r#"(OpaqueHandle):
    pass


"#@,
        Decl::Enum(e) => py_enum_code(e),
    }
}

/// The Python classes of the first `n` declarations.
pub open spec fn py_types_code(types: Seq<Decl>, n: nat) -> Seq<char>
    decreases n,
{
    if n == 0 {
        "# --- Types ---\n\n"@
    } else {
        py_types_code(types, (n - 1) as nat) + py_decl_code(types[n - 1], types)
    }
}

/// The Python classes of the interface's types.
pub fn gen_py_types(iface: &Interface) -> (r: String)
    ensures
        r@ == py_types_code(iface@.types, iface@.types.len()),
{
    let mut s = String::from_str("# --- Types ---\n\n");
    let mut i: usize = 0;
    while i < iface.types.len()
        invariant
            i <= iface.types.len(),
            s@ == py_types_code(iface@.types, i as nat),
        decreases iface.types.len() - i,
    {
        assert(iface@.types[i as int] == iface.types@[i as int]@);
        let piece = match &iface.types[i] {
            TypeDecl::Struct(st) => {
                if st.fields.len() == 0 {
                    let name = st.name.as_str();
                    String::from_str("class ")
                        .concat(name)
                        .concat(r#"(OpaqueHandle):
    pass


"#)
                } else {
                    gen_py_struct_class(st, iface.types.as_slice())
                }
            },
            TypeDecl::Opaque(o) => {
                let name = o.name.as_str();
                String::from_str("class ")
                    .concat(name)
                    .concat(r#"(OpaqueHandle):
    pass


"#)
            },
            TypeDecl::Enum(e) => gen_py_enum_class(e),
        };
        s = s.concat(piece.as_str());
        i = i + 1;
    }
    s
}

// ---------------------------------------------------------------------------
// Client
// ---------------------------------------------------------------------------

/// Whether a parameter is an out-parameter, which the client allocates.
pub open spec fn is_out(ft: Ty) -> bool {
    ft is OutU8Vec || ft is RefMut
}

/// The number of out-parameters among the first `n`.
pub open spec fn out_count(ps: Seq<ParamModel>, n: nat) -> nat
    decreases n,
{
    if n == 0 {
        0
    } else {
        out_count(ps, (n - 1) as nat) + (if is_out(ps[n - 1].ty) {
            1nat
        } else {
            0
        })
    }
}

/// The parameters that the caller passes, among the first `n`, each after a
/// comma.
pub open spec fn py_params(ps: Seq<ParamModel>, n: nat) -> Seq<char>
    decreases n,
{
    if n == 0 {
        Seq::empty()
    } else if is_out(ps[n - 1].ty) {
        py_params(ps, (n - 1) as nat)
    } else {
        py_params(ps, (n - 1) as nat) + ", "@ + ps[n - 1].name
    }
}

/// The statements that write the first `n` parameters.
pub open spec fn py_param_writes(ps: Seq<ParamModel>, n: nat, types: Seq<Decl>) -> Seq<char>
    decreases n,
{
    if n == 0 {
        Seq::empty()
    } else {
        let k = out_count(ps, (n - 1) as nat);
        py_param_writes(ps, (n - 1) as nat, types) + (if is_out(ps[n - 1].ty) {
            "        _ov"@
                + dec(k as nat)
                + " = self._new_outvec()\n        _w.write_u64(_ov"@
                + dec(k as nat)
                + ")\n"@
        } else {
            py_write_code(
                ps[n - 1].ty,
                ps[n - 1].name,
                "_w"@,
                types,
                "        "@,
                types.len(),
            )
        })
    }
}

/// The expressions that read back the first `n` out-parameters.
pub open spec fn outvec_reads(n: nat) -> Seq<char>
    decreases n,
{
    if n == 0 {
        Seq::empty()
    } else {
        let i = n - 1;
        if n == 1 {
            "self._read_outvec("@ + dec(i as nat) + ")"@
        } else {
            outvec_reads(i as nat) + ", "@ + ("self._read_outvec("@ + dec(i as nat) + ")"@)
        }
    }
}

/// What Python needs of a method: it can write the parameters and read the
/// return.
pub open spec fn py_method_ok(m: MethodModel, types: Seq<Decl>) -> bool {
    &&& immediate(m.return_type, types, types.len()) is Some
    &&& py_decodes(m.return_type, types)
    &&& forall|j: int|
        0 <= j < m.params.len() && !is_out((#[trigger] m.params[j]).ty) ==> py_writes(
            m.params[j].ty,
            types,
            types.len(),
        )
}

/// What the Python generator needs of an interface.
pub open spec fn py_generatable(iface: InterfaceModel) -> bool {
    forall|i: int|
        0 <= i < iface.methods.len() ==> py_method_ok(#[trigger] iface.methods[i], iface.types)
}

fn is_out_param(ft: &FieldType) -> (r: bool)
    ensures
        r == is_out(ft@),
{
    matches!(ft, FieldType::OutU8Vec | FieldType::RefMut(_))
}

fn can_py_method(m: &Method, types: &[TypeDecl]) -> (r: bool)
    ensures
        r == py_method_ok(m@, decls_model(types@)),
{
    let ghost tm = decls_model(types@);
    let n: usize = types.len();
    if is_immediate_owned(&m.return_type, types, n).is_none() || !can_py_decode(
        &m.return_type,
        types,
    ) {
        return false;
    }
    let mut j: usize = 0;
    while j < m.params.len()
        invariant
            j <= m.params.len(),
            n == types@.len(),
            tm == decls_model(types@),
            tm.len() == n,
            forall|k: int|
                0 <= k < j && !is_out((#[trigger] m@.params[k]).ty) ==> py_writes(
                    m@.params[k].ty,
                    tm,
                    tm.len(),
                ),
        decreases m.params.len() - j,
    {
        let p = &m.params[j];
        assert(m@.params[j as int] == p@);
        if !is_out_param(&p.ty) && !can_py_write(&p.ty, types, n) {
            return false;
        }
        j = j + 1;
    }
    true
}

/// Whether [`generate_python`] can take the interface.
pub fn can_generate_python(iface: &Interface) -> (r: bool)
    ensures
        r == py_generatable(iface@),
{
    let types = iface.types.as_slice();
    let mut i: usize = 0;
    while i < iface.methods.len()
        invariant
            i <= iface.methods.len(),
            decls_model(types@) == iface@.types,
            forall|k: int|
                0 <= k < i ==> py_method_ok(#[trigger] iface@.methods[k], iface@.types),
        decreases iface.methods.len() - i,
    {
        assert(iface@.methods[i as int] == iface.methods@[i as int]@);
        if !can_py_method(&iface.methods[i], types) {
            assert(!py_method_ok(iface@.methods[i as int], iface@.types));
            return false;
        }
        i = i + 1;
    }
    true
}

/// The statements that decode the return value and release what was copied.
pub open spec fn py_return_decode(ret: Ty, types: Seq<Decl>) -> Seq<char> {
    if ret is Unit {
        Seq::empty()
    } else if immediate(ret, types, types.len()) == Some(true) {
        py_decode_code(ret, "_r"@, types, "        "@) + "        _r.release_owned()\n"@
    } else {
        py_decode_code(ret, "_r"@, types, "        "@)
    }
}

/// The statements that hand the value, and the out-parameters if there are
/// any, to the caller.
pub open spec fn py_return_tail(unit: bool, outs: nat) -> Seq<char> {
    let lst = outvec_reads(outs);
    if outs > 0 {
        ("        _outs = ["@
            + lst
            + r#"]
        self._outvecs = []
"#@) + (if unit {
            "        return None, _outs\n\n"@
        } else {
            "        return _v, _outs\n\n"@
        })
    } else if unit {
        "        return None\n\n"@
    } else {
        "        return _v\n\n"@
    }
}

/// The Python method for a method of the interface.
pub open spec fn py_method_code(m: MethodModel, types: Seq<Decl>) -> Seq<char> {
    let name = m.name;
    let n = m.params.len();
    let sig = py_params(m.params, n);
    ("    def "@
        + name
        + "(self"@
        + sig
        + r#"):
        _w = SlotWriter()
"#@) + py_param_writes(m.params, n, types) + ("        _out = new_out_array()\n        self._dispatch('"@
        + name
        + r#"', _w, _out)
        _r = OutReader(_out, self)
        _tag = _r.read()
        if _tag == 1:
            _err = _r.read_string()
            _r.release_owned()
            raise DynSpireError(_err)
"#@) + py_return_decode(
        m.return_type,
        types,
    ) + py_return_tail(m.return_type is Unit, out_count(m.params, n))
}

/// The Python method for a method of the interface. Out-parameters are
/// allocated by the client and come back in a list beside the value.
pub fn gen_py_method(m: &Method, types: &[TypeDecl]) -> (r: String)
    requires
        py_method_ok(m@, decls_model(types@)),
    ensures
        r@ == py_method_code(m@, decls_model(types@)),
{
    let ghost tm = decls_model(types@);
    let name = m.name.as_str();
    let mut sig = String::new();
    let mut writes = String::new();
    let mut k: usize = 0;
    let mut i: usize = 0;
    while i < m.params.len()
        invariant
            i <= m.params.len(),
            k <= i,
            tm == decls_model(types@),
            py_method_ok(m@, tm),
            k == out_count(m@.params, i as nat),
            sig@ == py_params(m@.params, i as nat),
            writes@ == py_param_writes(m@.params, i as nat, tm),
        decreases m.params.len() - i,
    {
        let p = &m.params[i];
        assert(m@.params[i as int] == p@);
        if matches!(p.ty, FieldType::OutU8Vec | FieldType::RefMut(_)) {
            let piece = String::from_str("        _ov")
                .concat(decimal(k as u64).as_str())
                .concat(" = self._new_outvec()\n        _w.write_u64(_ov")
                .concat(decimal(k as u64).as_str())
                .concat(")\n");
            writes = writes.concat(piece.as_str());
            k = k + 1;
        } else {
            sig = sig.concat(", ").concat(p.name.as_str());
            let piece = gen_py_write(&p.ty, p.name.as_str(), "_w", types, "        ", types.len());
            writes = writes.concat(piece.as_str());
        }
        i = i + 1;
    }
    let head = String::from_str("    def ")
        .concat(name)
        .concat("(self")
        .concat(sig.as_str())
        .concat(r#"):
        _w = SlotWriter()
"#);
    let dispatch = String::from_str("        _out = new_out_array()\n        self._dispatch('")
        .concat(name)
        .concat(r#"', _w, _out)
        _r = OutReader(_out, self)
        _tag = _r.read()
        if _tag == 1:
            _err = _r.read_string()
            _r.release_owned()
            raise DynSpireError(_err)
"#);
    let unit = matches!(m.return_type, FieldType::Unit);
    let owned = is_immediate_owned(&m.return_type, types, types.len());
    let decode = if unit {
        String::new()
    } else {
        let block = gen_py_decode_block(&m.return_type, "_r", types, "        ");
        match owned {
            Some(true) => block.concat("        _r.release_owned()\n"),
            _ => block,
        }
    };
    let mut lst = String::new();
    let mut j: usize = 0;
    while j < k
        invariant
            j <= k,
            lst@ == outvec_reads(j as nat),
        decreases k - j,
    {
        let one = String::from_str("self._read_outvec(")
            .concat(decimal(j as u64).as_str())
            .concat(")");
        if j == 0 {
            lst = one;
        } else {
            lst = lst.concat(", ").concat(one.as_str());
        }
        j = j + 1;
    }
    let tail = if k > 0 {
        let outs = String::from_str("        _outs = [")
            .concat(lst.as_str())
            .concat(r#"]
        self._outvecs = []
"#);
        outs.concat(
            if unit {
                "        return None, _outs\n\n"
            } else {
                "        return _v, _outs\n\n"
            },
        )
    } else if unit {
        String::from_str("        return None\n\n")
    } else {
        String::from_str("        return _v\n\n")
    };
    head.concat(writes.as_str()).concat(dispatch.as_str()).concat(decode.as_str()).concat(
        tail.as_str(),
    )
}

/// The Python methods of the first `n` methods.
pub open spec fn py_methods_code(iface: InterfaceModel, n: nat) -> Seq<char>
    decreases n,
{
    if n == 0 {
        Seq::empty()
    } else {
        py_methods_code(iface, (n - 1) as nat) + py_method_code(iface.methods[n - 1], iface.types)
    }
}

/// The Python client class.
pub open spec fn py_client_code(iface: InterfaceModel) -> Seq<char> {
    let cn = iface.name;
    let lower = lower_text(iface.name);
    let methods = py_methods_code(iface, iface.methods.len());
    r#"# --- Client ---

class "#@
        + cn
        + "(SpierClient):\n    _spier_name = '"@
        + lower
        + r#"'
    _idl_hash_const = _IDL_HASH

"#@
        + methods
}

/// The line that opens the definition of a method.
pub open spec fn def_line(m: MethodModel) -> Seq<char> {
    let name = m.name;
    let sig = py_params(m.params, m.params.len());
    "    def "@ + name + "(self"@ + sig + "):\n"@
}

/// The client class up to its first method.
pub open spec fn py_client_head(iface: InterfaceModel) -> Seq<char> {
    let cn = iface.name;
    let lower = lower_text(iface.name);
    let methods = Seq::<char>::empty();
    r#"# --- Client ---

class "#@
        + cn
        + "(SpierClient):\n    _spier_name = '"@
        + lower
        + r#"'
    _idl_hash_const = _IDL_HASH

"#@
        + methods
}

/// The definitions of the methods from number `i` on.
pub open spec fn definitions_from(iface: InterfaceModel, i: nat) -> Seq<char>
    decreases iface.methods.len() - i,
{
    if i >= iface.methods.len() {
        Seq::empty()
    } else {
        py_method_code(iface.methods[i as int], iface.types) + definitions_from(iface, i + 1)
    }
}

proof fn lemma_definitions(iface: InterfaceModel, i: nat)
    requires
        i <= iface.methods.len(),
    ensures
        py_methods_code(iface, i) + definitions_from(iface, i) == py_methods_code(
            iface,
            iface.methods.len(),
        ),
    decreases iface.methods.len() - i,
{
    if i < iface.methods.len() {
        lemma_definitions(iface, i + 1);
        let one = py_method_code(iface.methods[i as int], iface.types);
        let rest = definitions_from(iface, i + 1);
        assert(py_methods_code(iface, i + 1) == py_methods_code(iface, i) + one);
        assert(py_methods_code(iface, i) + (one + rest) =~= py_methods_code(iface, i) + one + rest);
    } else {
        assert(py_methods_code(iface, i) + Seq::<char>::empty() =~= py_methods_code(iface, i));
    }
}

/// Behind its head the client consists of one definition for each method, in
/// their order, and that of method `i` opens with its definition line.
pub proof fn client_defines_each_method(iface: InterfaceModel, i: int)
    requires
        0 <= i < iface.methods.len(),
    ensures
        py_client_code(iface) == py_client_head(iface) + definitions_from(iface, 0),
        definitions_from(iface, i as nat) == py_method_code(iface.methods[i], iface.types)
            + definitions_from(iface, (i + 1) as nat),
        def_line(iface.methods[i]).is_prefix_of(py_method_code(iface.methods[i], iface.types)),
{
    lemma_definitions(iface, 0);
    let all = definitions_from(iface, 0);
    assert(py_methods_code(iface, 0) + all =~= all);
    assert(py_client_code(iface) =~= py_client_head(iface) + all);
    let m = iface.methods[i];
    let n = m.params.len();
    let name = m.name;
    let sig = py_params(m.params, n);
    let head = "    def "@
        + name
        + "(self"@
        + sig
        + r#"):
        _w = SlotWriter()
"#@;
    reveal_strlit("):\n        _w = SlotWriter()\n");
    reveal_strlit("):\n");
    assert("):\n"@.is_prefix_of("):\n        _w = SlotWriter()\n"@)) by {
        assert("):\n"@ =~= "):\n        _w = SlotWriter()\n"@.take(3));
    }
    assert(def_line(m) =~= head.take(def_line(m).len() as int));
    let code = py_method_code(m, iface.types);
    assert(head =~= code.take(head.len() as int));
    assert(def_line(m) =~= code.take(def_line(m).len() as int));
}

/// The Python client class.
pub fn gen_py_client(iface: &Interface) -> (r: String)
    requires
        py_generatable(iface@),
    ensures
        r@ == py_client_code(iface@),
{
    let cn = iface.name.as_str();
    let lower = to_lower(cn);
    let mut methods = String::new();
    let mut i: usize = 0;
    while i < iface.methods.len()
        invariant
            i <= iface.methods.len(),
            py_generatable(iface@),
            methods@ == py_methods_code(iface@, i as nat),
        decreases iface.methods.len() - i,
    {
        assert(iface@.methods[i as int] == iface.methods@[i as int]@);
        let piece = gen_py_method(&iface.methods[i], iface.types.as_slice());
        methods = methods.concat(piece.as_str());
        i = i + 1;
    }
    String::from_str(r#"# --- Client ---

class "#)
        .concat(cn)
        .concat("(SpierClient):\n    _spier_name = '")
        .concat(lower.as_str())
        .concat(r#"'
    _idl_hash_const = _IDL_HASH

"#)
        .concat(methods.as_str())
}

/// The generated Python module: runtime, hash, type classes and client.
pub open spec fn python_code(iface: InterfaceModel) -> Seq<char> {
    let hash = idl_hash(iface);
    let runtime = PY_RUNTIME@;
    (r#"# Auto-generated by dynspire-codegen. Do not edit.
from __future__ import annotations

"#@
        + runtime
        + r#"

_IDL_HASH = 0x"#@
        + hex16(hash)
        + "\n\n\n"@) + py_types_code(iface.types, iface.types.len()) + py_client_code(iface) + "\n"@
}

/// The Python client carries the hash of the interface, as the Rust code does.
pub proof fn python_carries_the_hash(iface: InterfaceModel)
    ensures
        occurs(hex16(idl_hash(iface)), python_code(iface)),
{
    let hash = idl_hash(iface);
    let head = "# Auto-generated by dynspire-codegen. Do not edit.\nfrom __future__ import annotations\n\n"@
        + PY_RUNTIME@ + "\n\n_IDL_HASH = 0x"@;
    let rest = "\n\n\n"@ + py_types_code(iface.types, iface.types.len()) + py_client_code(iface)
        + "\n"@;
    assert(python_code(iface) =~= head + hex16(hash) + rest);
    lemma_occurs(head, hex16(hash), rest);
}

/// Generates a complete ctypes client module.
pub fn generate_python(iface: &Interface) -> (r: String)
    requires
        py_generatable(iface@),
    ensures
        r@ == python_code(iface@),
{
    let hash: u64 = iface.hash();
    let runtime = PY_RUNTIME;
    (String::from_str(r#"# Auto-generated by dynspire-codegen. Do not edit.
from __future__ import annotations

"#)
        .concat(runtime)
        .concat(r#"

_IDL_HASH = 0x"#)
        .concat(hexadecimal(hash).as_str())
        .concat("\n\n\n")).concat(gen_py_types(iface).as_str()).concat(
        gen_py_client(iface).as_str(),
    ).concat("\n")
}

/// A path in the directory of the package, if that is known.
pub open spec fn package_path(manifest: Option<&str>, path: Seq<char>) -> Seq<char> {
    match manifest {
        Some(dir) => if dir@.len() > 0 {
            dir@ + "/"@ + path
        } else {
            path
        },
        None => path,
    }
}

impl BuildContext {
    /// Builds the Python client of a loaded interface: the path of the module in
    /// the directory of the package, and its content. What has been emitted
    /// elsewhere does not matter to it.
    pub fn build_python(
        &self,
        iface: &Interface,
        manifest: Option<&str>,
        py_out_path: &str,
    ) -> (r: (String, String))
        requires
            py_generatable(iface@),
        ensures
            r.0@ == package_path(manifest, py_out_path@),
            r.1@ == python_code(iface@),
    {
        let code = generate_python(iface);
        let path = match manifest {
            Some(dir) => {
                if dir.unicode_len() > 0 {
                    String::from_str(dir).concat("/").concat(py_out_path)
                } else {
                    String::from_str(py_out_path)
                }
            },
            None => String::from_str(py_out_path),
        };
        (path, code)
    }
}

} // verus!
