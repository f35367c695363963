//! The lines of the Python client, counted.
use vstd::prelude::*;

use crate::ast::{
    idl_hash, Decl, EnumModel, InterfaceModel, MethodModel, ParamModel, StructModel, Ty,
    VariantModel,
};
use crate::codec::{lookup, lookup_finds_declared};
use crate::counting::{
    all_names_lack, lacks, lemma_lines_add_up, lemma_no_lines, lemma_single_line, lemma_stands,
    lines_before, lines_with, names_lack, stands_at, starts_line, whole_lines,
};
use crate::grammar::{
    all_lawful, lawful, lawful_decl, lawful_decls, lawful_interface, lawful_method, lawful_variant,
    named_params,
};
use crate::lexer::{in_ident, is_name};
use crate::py_runtime::PY_RUNTIME;
use crate::pygen::{
    argument_names, ctypes_field, ctypes_list, def_line, default_value, enum_ctypes, field_item,
    init_lines, is_out, item_list, mirror_lines, out_count, outvec_reads, payload_list,
    property_lines, py_client_code, py_client_head, py_decl_code, py_decode_code, py_enum_read_expr,
    py_enum_variants, py_enum_write_code, py_method_code, py_methods_code, py_param_writes,
    py_params, py_read_arms, py_read_code, py_read_list, py_read_variants, py_return_decode,
    py_return_tail, py_struct_code, py_types_code, py_write_array, py_write_chunks, py_write_code,
    py_write_fields, py_write_list, py_write_variants, python_code, repeat_list, FieldItem,
};
use crate::text::{all_ascii, ascii_lower, dec, hex, hex16, lower_text};

verus! {

// ---------------------------------------------------------------------------
// Indented lines
// ---------------------------------------------------------------------------

/// Whether the line of `s` at the place `i` is empty, or indented by more than
/// four blanks.
spec fn deep_at(s: Seq<char>, i: int) -> bool {
    s[i] == '\n' || (i + 4 < s.len() && s[i] == ' ' && s[i + 4] == ' ')
}

/// Whether all lines of `s` but the first are so.
spec fn goes_deep(s: Seq<char>) -> bool {
    forall|i: int| 0 < i < s.len() && s[i - 1] == '\n' ==> #[trigger] deep_at(s, i)
}

/// Whether all lines of `s` are so.
spec fn deep(s: Seq<char>) -> bool {
    goes_deep(s) && (s.len() == 0 || deep_at(s, 0))
}

/// Whether `s` consists of such lines, the last of them closed.
spec fn body(s: Seq<char>) -> bool {
    deep(s) && whole_lines(s)
}

/// Whether `s` consists of blanks, more than four.
spec fn is_pad(s: Seq<char>) -> bool {
    s.len() > 4 && forall|i: int| 0 <= i < s.len() ==> #[trigger] s[i] == ' '
}

proof fn lemma_go_on(x: Seq<char>, v: Seq<char>) -> (s: Seq<char>)
    requires
        deep(x),
        x.len() > 0,
        x.last() != '\n',
        goes_deep(v),
    ensures
        s == x + v,
        deep(x + v),
{
    let t = x + v;
    assert forall|i: int| 0 <= i < t.len() && starts_line(t, i) implies #[trigger] deep_at(t,
        i) by {
        if i < x.len() {
            assert(starts_line(x, i));
            assert(deep_at(x, i));
        } else {
            let k = i - x.len();
            assert(k > 0);
            assert(deep_at(v, k));
        }
    }
    x + v
}

proof fn lemma_next(x: Seq<char>, y: Seq<char>) -> (s: Seq<char>)
    requires
        body(x),
        body(y),
    ensures
        s == x + y,
        body(x + y),
{
    let t = x + y;
    assert forall|i: int| 0 <= i < t.len() && starts_line(t, i) implies #[trigger] deep_at(t,
        i) by {
        if i < x.len() {
            assert(deep_at(x, i));
        } else {
            assert(deep_at(y, i - x.len()));
        }
    }
    if y.len() > 0 {
        assert(t.last() == y.last());
    } else {
        assert(t =~= x);
    }
    x + y
}

proof fn lemma_statement(pad: Seq<char>, mid: Seq<char>, end: Seq<char>)
    requires
        is_pad(pad),
        lacks(mid, '\n'),
        end.len() > 0,
        end.last() == '\n',
        lacks(end.drop_last(), '\n'),
    ensures
        body(pad + mid + end),
{
    let s = pad + mid + end;
    assert(s.last() == '\n');
    assert forall|i: int| 0 <= i < s.len() && starts_line(s, i) implies #[trigger] deep_at(s,
        i) by {
        if i > 0 {
            let k = i - 1;
            if k < pad.len() {
                assert(s[k] == pad[k]);
            } else if k < pad.len() + mid.len() {
                assert(s[k] == mid[k - pad.len()]);
            } else {
                assert(s[k] == end.drop_last()[k - pad.len() - mid.len()]);
            }
        } else {
            assert(s[0] == pad[0] && s[4] == pad[4]);
        }
    }
}

proof fn lemma_pads(pad: Seq<char>)
    requires
        is_pad(pad),
    ensures
        is_pad(pad + "    "@),
{
    reveal_strlit("    ");
}

proof fn lemma_dec(n: nat)
    ensures
        lacks(dec(n), '\n'),
    decreases n,
{
    if n >= 10 {
        lemma_dec(n / 10);
    }
}

/// Whether no name in an enum holds a line end.
spec fn enum_in_lines(e: EnumModel) -> bool {
    lacks(e.name, '\n') && variants_in_lines(e.variants)
}

spec fn variants_in_lines(vs: Seq<VariantModel>) -> bool {
    forall|i: int|
        0 <= i < vs.len() ==> lacks((#[trigger] vs[i]).name, '\n') && all_names_lack(
            vs[i].fields,
            vs[i].fields.len(),
            '\n',
        )
}

/// Whether no name in the enums of `types` holds a line end.
spec fn enums_in_lines(types: Seq<Decl>) -> bool {
    forall|i: int|
        0 <= i < types.len() ==> ((#[trigger] types[i]) matches Decl::Enum(e) ==> enum_in_lines(e))
}

proof fn lemma_enum(types: Seq<Decl>, name: Seq<char>)
    requires
        enums_in_lines(types),
    ensures
        lookup(types, name) matches Some(Decl::Enum(e)) ==> enum_in_lines(e),
{
    lookup_finds_declared(types, name);
}

// ---------------------------------------------------------------------------
// Writing parameters
// ---------------------------------------------------------------------------

proof fn lemma_write(expr: Seq<char>, w: Seq<char>, pad: Seq<char>, l: Seq<char>)
    requires
        is_pad(pad),
        lacks(expr, '\n'),
        lacks(w, '\n'),
        lacks(l, '\n'),
    ensures
        body(pad + w + l + expr + ")\n"@),
{
    reveal_strlit(")\n");
    lemma_statement(pad, w + l + expr, ")\n"@);
    assert(pad + w + l + expr + ")\n"@ =~= pad + (w + l + expr) + ")\n"@);
}

proof fn lemma_view(expr: Seq<char>, w: Seq<char>, pad: Seq<char>)
    requires
        is_pad(pad),
        lacks(expr, '\n'),
        lacks(w, '\n'),
    ensures
        body(pad + w + ".write_u64(int("@ + expr + ".ptr));\n"@ + pad + w + ".write_u64(int("@
            + expr + ".len))\n"@),
{
    reveal_strlit(".write_u64(int(");
    reveal_strlit(".ptr));\n");
    reveal_strlit(".len))\n");
    lemma_statement(pad, w + ".write_u64(int("@ + expr, ".ptr));\n"@);
    lemma_statement(pad, w + ".write_u64(int("@ + expr, ".len))\n"@);
    let a = pad + (w + ".write_u64(int("@ + expr) + ".ptr));\n"@;
    lemma_next(a, (pad + (w + ".write_u64(int("@ + expr) + ".len))\n"@));
    assert(pad + w + ".write_u64(int("@ + expr + ".ptr));\n"@ + pad + w + ".write_u64(int("@ + expr
        + ".len))\n"@ =~= a + (pad + (w + ".write_u64(int("@ + expr) + ".len))\n"@));
}

proof fn lemma_managed(expr: Seq<char>, w: Seq<char>, pad: Seq<char>)
    requires
        is_pad(pad),
        lacks(expr, '\n'),
        lacks(w, '\n'),
    ensures
        body(pad + w + ".write_u64(int("@ + expr + ".allocator));\n"@ + pad + w + ".write_u64(int("@
            + expr + ".ptr));\n"@ + pad + w + ".write_u64(int("@ + expr + ".len));\n"@ + pad + w
            + ".write_u64(int("@ + expr + ".cap))\n"@),
{
    reveal_strlit(".write_u64(int(");
    reveal_strlit(".allocator));\n");
    reveal_strlit(".ptr));\n");
    reveal_strlit(".len));\n");
    reveal_strlit(".cap))\n");
    lemma_statement(pad, w + ".write_u64(int("@ + expr, ".allocator));\n"@);
    lemma_statement(pad, w + ".write_u64(int("@ + expr, ".ptr));\n"@);
    lemma_statement(pad, w + ".write_u64(int("@ + expr, ".len));\n"@);
    lemma_statement(pad, w + ".write_u64(int("@ + expr, ".cap))\n"@);
    let a = pad + (w + ".write_u64(int("@ + expr) + ".allocator));\n"@;
    let b = lemma_next(a, (pad + (w + ".write_u64(int("@ + expr) + ".ptr));\n"@));
    let c = lemma_next(b, (pad + (w + ".write_u64(int("@ + expr) + ".len));\n"@));
    lemma_next(c, (pad + (w + ".write_u64(int("@ + expr) + ".cap))\n"@));
    assert(pad + w + ".write_u64(int("@ + expr + ".allocator));\n"@ + pad + w + ".write_u64(int("@
        + expr + ".ptr));\n"@ + pad + w + ".write_u64(int("@ + expr + ".len));\n"@ + pad + w
        + ".write_u64(int("@ + expr + ".cap))\n"@ =~= c + (pad + (w + ".write_u64(int("@ + expr)
        + ".cap))\n"@));
}

proof fn lemma_option(
    expr: Seq<char>,
    w: Seq<char>,
    pad: Seq<char>,
    inpad: Seq<char>,
    inner_w: Seq<char>,
)
    requires
        is_pad(pad),
        lacks(expr, '\n'),
        lacks(w, '\n'),
        is_pad(inpad),
        body(inner_w),
    ensures
        body(pad + "if "@ + expr + " is None:\n"@ + inpad + w + ".write_u64(0)\n"@ + pad
            + "else:\n"@ + inpad + w + ".write_u64(1)\n"@ + inner_w),
{
    reveal_strlit("if ");
    reveal_strlit(" is None:\n");
    reveal_strlit(".write_u64(0)\n");
    reveal_strlit("else:\n");
    reveal_strlit(".write_u64(1)\n");
    lemma_statement(pad, "if "@ + expr, " is None:\n"@);
    lemma_statement(inpad, w, ".write_u64(0)\n"@);
    lemma_statement(pad, Seq::empty(), "else:\n"@);
    lemma_statement(inpad, w, ".write_u64(1)\n"@);
    let a = pad + ("if "@ + expr) + " is None:\n"@;
    let b = lemma_next(a, (inpad + w + ".write_u64(0)\n"@));
    let c = lemma_next(b, (pad + Seq::<char>::empty() + "else:\n"@));
    let d = lemma_next(c, (inpad + w + ".write_u64(1)\n"@));
    lemma_next(d, inner_w);
    assert(pad + "if "@ + expr + " is None:\n"@ + inpad + w + ".write_u64(0)\n"@ + pad + "else:\n"@
        + inpad + w + ".write_u64(1)\n"@ + inner_w =~= d + inner_w);
}

proof fn lemma_chunk(expr: Seq<char>, w: Seq<char>, pad: Seq<char>, start: int, end: int)
    requires
        is_pad(pad),
        lacks(expr, '\n'),
        lacks(w, '\n'),
    ensures
        body(pad + w + ".write_u64(int.from_bytes("@ + expr + "["@ + dec(start as nat) + ":"@
            + dec(end as nat) + "], 'little'))\n"@),
{
    reveal_strlit(".write_u64(int.from_bytes(");
    reveal_strlit("[");
    reveal_strlit(":");
    reveal_strlit("], 'little'))\n");
    lemma_dec(start as nat);
    lemma_dec(end as nat);
    lemma_statement(pad, w + ".write_u64(int.from_bytes("@ + expr + "["@ + dec(start as nat) + ":"@
        + dec(end as nat), "], 'little'))\n"@);
    assert(pad + w + ".write_u64(int.from_bytes("@ + expr + "["@ + dec(start as nat) + ":"@
        + dec(end as nat) + "], 'little'))\n"@ =~= (pad + (w + ".write_u64(int.from_bytes("@ + expr
        + "["@ + dec(start as nat) + ":"@ + dec(end as nat)) + "], 'little'))\n"@));
}

proof fn lemma_variant(expr: Seq<char>, w: Seq<char>, pad: Seq<char>, kw: Seq<char>, vn: Seq<char>)
    requires
        is_pad(pad),
        lacks(expr, '\n'),
        lacks(w, '\n'),
        lacks(kw, '\n'),
        lacks(vn, '\n'),
    ensures
        body(pad + kw + " "@ + expr + ".variant == '"@ + vn + "':\n"@),
{
    reveal_strlit(" ");
    reveal_strlit(".variant == '");
    reveal_strlit("':\n");
    lemma_statement(pad, kw + " "@ + expr + ".variant == '"@ + vn, "':\n"@);
    assert(pad + kw + " "@ + expr + ".variant == '"@ + vn + "':\n"@ =~= (pad + (kw + " "@ + expr
        + ".variant == '"@ + vn) + "':\n"@));
}

proof fn lemma_disc(w: Seq<char>, inpad: Seq<char>, i: int)
    requires
        is_pad(inpad),
        lacks(w, '\n'),
    ensures
        body(inpad + w + ".write_u64("@ + dec(i as nat) + ")\n"@),
{
    reveal_strlit(".write_u64(");
    reveal_strlit(")\n");
    lemma_dec(i as nat);
    lemma_statement(inpad, w + ".write_u64("@ + dec(i as nat), ")\n"@);
    assert(inpad + w + ".write_u64("@ + dec(i as nat) + ")\n"@ =~= (inpad + (w + ".write_u64("@
        + dec(i as nat)) + ")\n"@));
}

proof fn lemma_invalid(
    expr: Seq<char>,
    w: Seq<char>,
    pad: Seq<char>,
    n: Seq<char>,
    inpad: Seq<char>,
)
    requires
        is_pad(pad),
        lacks(expr, '\n'),
        lacks(w, '\n'),
        is_pad(inpad),
        lacks(n, '\n'),
    ensures
        body(pad + "else:\n"@ + inpad + "raise ValueError('invalid "@ + n + " variant: ' + repr("@
            + expr + ".variant))\n"@),
{
    reveal_strlit("else:\n");
    reveal_strlit("raise ValueError('invalid ");
    reveal_strlit(" variant: ' + repr(");
    reveal_strlit(".variant))\n");
    lemma_statement(pad, Seq::empty(), "else:\n"@);
    lemma_statement(inpad, "raise ValueError('invalid "@ + n + " variant: ' + repr("@ + expr,
        ".variant))\n"@);
    let a = pad + Seq::<char>::empty() + "else:\n"@;
    lemma_next(a, (inpad + ("raise ValueError('invalid "@ + n + " variant: ' + repr("@ + expr)
        + ".variant))\n"@));
    assert(pad + "else:\n"@ + inpad + "raise ValueError('invalid "@ + n + " variant: ' + repr("@
        + expr + ".variant))\n"@ =~= a + (inpad + ("raise ValueError('invalid "@ + n
        + " variant: ' + repr("@ + expr) + ".variant))\n"@));
}

proof fn lemma_py_write(
    ft: Ty,
    expr: Seq<char>,
    w: Seq<char>,
    types: Seq<Decl>,
    pad: Seq<char>,
    depth: nat,
)
    requires
        is_pad(pad),
        lacks(expr, '\n'),
        lacks(w, '\n'),
        enums_in_lines(types),
    ensures
        body(py_write_code(ft, expr, w, types, pad, depth)),
    decreases 4 * depth, ft, 0nat,
{
    let inpad = pad + "    "@;
    lemma_pads(pad);
    match ft {
        Ty::Bool => {
            reveal_strlit(".write_bool(");
            lemma_write(expr, w, pad, ".write_bool("@);
        },
        Ty::U8 => {
            reveal_strlit(".write_u8(");
            lemma_write(expr, w, pad, ".write_u8("@);
        },
        Ty::U16 => {
            reveal_strlit(".write_u16(");
            lemma_write(expr, w, pad, ".write_u16("@);
        },
        Ty::U32 => {
            reveal_strlit(".write_u32(");
            lemma_write(expr, w, pad, ".write_u32("@);
        },
        Ty::U64 => {
            reveal_strlit(".write_u64(");
            lemma_write(expr, w, pad, ".write_u64("@);
        },
        Ty::I8 => {
            reveal_strlit(".write_i8(");
            lemma_write(expr, w, pad, ".write_i8("@);
        },
        Ty::I16 => {
            reveal_strlit(".write_i16(");
            lemma_write(expr, w, pad, ".write_i16("@);
        },
        Ty::I32 => {
            reveal_strlit(".write_i32(");
            lemma_write(expr, w, pad, ".write_i32("@);
        },
        Ty::I64 => {
            reveal_strlit(".write_i64(");
            lemma_write(expr, w, pad, ".write_i64("@);
        },
        Ty::F32 => {
            reveal_strlit(".write_f32(");
            lemma_write(expr, w, pad, ".write_f32("@);
        },
        Ty::F64 => {
            reveal_strlit(".write_f64(");
            lemma_write(expr, w, pad, ".write_f64("@);
        },
        Ty::Str => {
            reveal_strlit(".write_str(");
            lemma_write(expr, w, pad, ".write_str("@);
        },
        Ty::String => {
            reveal_strlit(".write_str(");
            lemma_write(expr, w, pad, ".write_str("@);
        },
        Ty::U8Slice => {
            reveal_strlit(".write_bytes(");
            lemma_write(expr, w, pad, ".write_bytes("@);
        },
        Ty::Vec(_) => {
            reveal_strlit(".write_bytes(");
            lemma_write(expr, w, pad, ".write_bytes("@);
        },
        Ty::DStr => lemma_view(expr, w, pad),
        Ty::DSlice(_) => lemma_view(expr, w, pad),
        Ty::DString => lemma_managed(expr, w, pad),
        Ty::DVec(_) => lemma_managed(expr, w, pad),
        Ty::DOption(t) => {
            let inner_w = py_write_code(*t, expr, w, types, inpad, depth);
            lemma_py_write(*t, expr, w, types, inpad, depth);
            lemma_option(expr, w, pad, inpad, inner_w);
        },
        Ty::Option(t) => {
            let inner_w = py_write_code(*t, expr, w, types, inpad, depth);
            lemma_py_write(*t, expr, w, types, inpad, depth);
            lemma_option(expr, w, pad, inpad, inner_w);
        },
        Ty::Ref(t) => match *t {
            Ty::DString => lemma_view(expr, w, pad),
            Ty::DVec(_) => lemma_view(expr, w, pad),
            other => lemma_py_write(other, expr, w, types, pad, depth),
        },
        Ty::Tuple(ts) => lemma_py_write_list(ts, ts.len(), expr, w, types, pad, depth),
        Ty::Array(t, len) => if *t is U8 && len % 8 == 0 {
            lemma_py_write_chunks(len / 8, expr, w, pad);
        } else {
            lemma_py_write_array(*t, len, expr, w, types, pad, depth);
        },
        Ty::Named(name) => match lookup(types, name) {
            Some(Decl::Enum(e)) => if depth > 0 {
                lemma_enum(types, name);
                lemma_py_write_enum(e, expr, w, types, pad, (depth - 1) as nat);
            },
            _ => {
                reveal_strlit(".write_opaque(");
                lemma_write(expr, w, pad, ".write_opaque("@);
            },
        },
        _ => {},
    }
}

proof fn lemma_part(expr: Seq<char>, open: Seq<char>, i: nat)
    requires
        lacks(expr, '\n'),
        lacks(open, '\n'),
    ensures
        lacks(expr + open + dec(i) + "]"@, '\n'),
{
    lemma_dec(i);
    reveal_strlit("]");
}

proof fn lemma_py_write_list(
    ts: Seq<Ty>,
    n: nat,
    expr: Seq<char>,
    w: Seq<char>,
    types: Seq<Decl>,
    pad: Seq<char>,
    depth: nat,
)
    requires
        is_pad(pad),
        lacks(expr, '\n'),
        lacks(w, '\n'),
        enums_in_lines(types),
    ensures
        body(py_write_list(ts, n, expr, w, types, pad, depth)),
    decreases 4 * depth, ts, n,
{
    if 0 < n <= ts.len() {
        let i = (n - 1) as nat;
        let part = expr + "["@ + dec(i) + "]"@;
        reveal_strlit("[");
        lemma_part(expr, "["@, i);
        lemma_py_write_list(ts, i, expr, w, types, pad, depth);
        lemma_py_write(ts[n - 1], part, w, types, pad, depth);
        lemma_next(
            py_write_list(ts, i, expr, w, types, pad, depth),
            py_write_code(ts[n - 1], part, w, types, pad, depth),
        );
    }
}

proof fn lemma_py_write_chunks(n: nat, expr: Seq<char>, w: Seq<char>, pad: Seq<char>)
    requires
        is_pad(pad),
        lacks(expr, '\n'),
        lacks(w, '\n'),
    ensures
        body(py_write_chunks(n, expr, w, pad)),
    decreases n,
{
    if n > 0 {
        let start = (n - 1) * 8;
        let end = start + 8;
        lemma_py_write_chunks((n - 1) as nat, expr, w, pad);
        lemma_chunk(expr, w, pad, start, end);
        lemma_next(py_write_chunks((n - 1) as nat, expr, w, pad), pad + w
            + ".write_u64(int.from_bytes("@ + expr + "["@ + dec(start as nat) + ":"@
            + dec(end as nat) + "], 'little'))\n"@);
    }
}

proof fn lemma_py_write_array(
    elem: Ty,
    n: nat,
    expr: Seq<char>,
    w: Seq<char>,
    types: Seq<Decl>,
    pad: Seq<char>,
    depth: nat,
)
    requires
        is_pad(pad),
        lacks(expr, '\n'),
        lacks(w, '\n'),
        enums_in_lines(types),
    ensures
        body(py_write_array(elem, n, expr, w, types, pad, depth)),
    decreases 4 * depth, elem, 1 + n,
{
    if n > 0 {
        let i = (n - 1) as nat;
        let part = expr + "["@ + dec(i) + "]"@;
        reveal_strlit("[");
        lemma_part(expr, "["@, i);
        lemma_py_write_array(elem, i, expr, w, types, pad, depth);
        lemma_py_write(elem, part, w, types, pad, depth);
        lemma_next(
            py_write_array(elem, i, expr, w, types, pad, depth),
            py_write_code(elem, part, w, types, pad, depth),
        );
    }
}

proof fn lemma_py_write_fields(
    fs: Seq<Ty>,
    k: nat,
    expr: Seq<char>,
    w: Seq<char>,
    types: Seq<Decl>,
    pad: Seq<char>,
    depth: nat,
)
    requires
        is_pad(pad),
        lacks(expr, '\n'),
        lacks(w, '\n'),
        enums_in_lines(types),
    ensures
        body(py_write_fields(fs, k, expr, w, types, pad, depth)),
    decreases 4 * depth + 1, fs, k,
{
    if 0 < k <= fs.len() {
        let i = (k - 1) as nat;
        let part = expr + ".fields["@ + dec(i) + "]"@;
        reveal_strlit(".fields[");
        lemma_part(expr, ".fields["@, i);
        lemma_py_write_fields(fs, i, expr, w, types, pad, depth);
        lemma_py_write(fs[k - 1], part, w, types, pad, depth);
        lemma_next(
            py_write_fields(fs, i, expr, w, types, pad, depth),
            py_write_code(fs[k - 1], part, w, types, pad, depth),
        );
    }
}

proof fn lemma_py_write_variants(
    vs: Seq<VariantModel>,
    k: nat,
    expr: Seq<char>,
    w: Seq<char>,
    types: Seq<Decl>,
    pad: Seq<char>,
    depth: nat,
)
    requires
        is_pad(pad),
        lacks(expr, '\n'),
        lacks(w, '\n'),
        enums_in_lines(types),
        variants_in_lines(vs),
    ensures
        body(py_write_variants(vs, k, expr, w, types, pad, depth)),
    decreases 4 * depth + 2, vs, k,
{
    if 0 < k <= vs.len() {
        let i = k - 1;
        let inpad = pad + "    "@;
        lemma_pads(pad);
        let kw = if i == 0 {
            "if"@
        } else {
            "elif"@
        };
        reveal_strlit("if");
        reveal_strlit("elif");
        let vn = vs[i].name;
        let fs = vs[i].fields;
        let before = py_write_variants(vs, i as nat, expr, w, types, pad, depth);
        let fields = py_write_fields(fs, fs.len(), expr, w, types, inpad, depth);
        lemma_py_write_variants(vs, i as nat, expr, w, types, pad, depth);
        lemma_py_write_fields(fs, fs.len(), expr, w, types, inpad, depth);
        let a = pad + kw + " "@ + expr + ".variant == '"@ + vn + "':\n"@;
        let b = inpad + w + ".write_u64("@ + dec(i as nat) + ")\n"@;
        lemma_variant(expr, w, pad, kw, vn);
        lemma_disc(w, inpad, i);
        lemma_next(before, a);
        lemma_next(before + a, b);
        lemma_next(before + a + b, fields);
    }
}

proof fn lemma_py_write_enum(
    e: EnumModel,
    expr: Seq<char>,
    w: Seq<char>,
    types: Seq<Decl>,
    pad: Seq<char>,
    depth: nat,
)
    requires
        is_pad(pad),
        lacks(expr, '\n'),
        lacks(w, '\n'),
        enums_in_lines(types),
        enum_in_lines(e),
    ensures
        body(py_enum_write_code(e, expr, w, types, pad, depth)),
    decreases 4 * depth + 3, e, 0nat,
{
    let inpad = pad + "    "@;
    let n = e.name;
    lemma_pads(pad);
    let x = py_write_variants(e.variants, e.variants.len(), expr, w, types, pad, depth);
    lemma_py_write_variants(e.variants, e.variants.len(), expr, w, types, pad, depth);
    lemma_invalid(expr, w, pad, n, inpad);
    lemma_next(x, pad + "else:\n"@ + inpad + "raise ValueError('invalid "@ + n
        + " variant: ' + repr("@ + expr + ".variant))\n"@);
}

// ---------------------------------------------------------------------------
// Reading returns
// ---------------------------------------------------------------------------

proof fn lemma_repeat(one: Seq<char>, n: nat)
    requires
        lacks(one, '\n'),
    ensures
        lacks(repeat_list(one, n), '\n'),
    decreases n,
{
    if n > 1 {
        reveal_strlit(", ");
        lemma_repeat(one, (n - 1) as nat);
    }
}

proof fn lemma_py_read(ft: Ty, r: Seq<char>, types: Seq<Decl>, depth: nat)
    requires
        lacks(r, '\n'),
        names_lack(ft, '\n'),
        enums_in_lines(types),
    ensures
        lacks(py_read_code(ft, r, types, depth), '\n'),
    decreases 4 * depth, ft, 0nat,
{
    match ft {
        Ty::Unit => reveal_strlit("None"),
        Ty::Bool => reveal_strlit(".read_bool()"),
        Ty::U8 => reveal_strlit(".read_u8()"),
        Ty::U16 => reveal_strlit(".read_u16()"),
        Ty::U32 => reveal_strlit(".read_u32()"),
        Ty::U64 => reveal_strlit(".read_u64()"),
        Ty::I8 => reveal_strlit(".read_i8()"),
        Ty::I16 => reveal_strlit(".read_i16()"),
        Ty::I32 => reveal_strlit(".read_i32()"),
        Ty::I64 => reveal_strlit(".read_i64()"),
        Ty::F32 => reveal_strlit(".read_f32()"),
        Ty::F64 => reveal_strlit(".read_f64()"),
        Ty::Str => reveal_strlit(".read_bytes()"),
        Ty::U8Slice => reveal_strlit(".read_bytes()"),
        Ty::String => reveal_strlit(".read_string()"),
        Ty::OutU8Vec => reveal_strlit("None"),
        Ty::RefMut(_) => reveal_strlit("None"),
        Ty::Vec(_) => {
            reveal_strlit(".read_bytes()");
            reveal_strlit(".read_vec_string()");
            reveal_strlit(".read_vec_bytes()");
        },
        Ty::Option(t) => {
            reveal_strlit("None if ");
            reveal_strlit(".read() == 0 else ");
            lemma_py_read(*t, r, types, depth);
        },
        Ty::DOption(t) => {
            reveal_strlit("None if ");
            reveal_strlit(".read() == 0 else ");
            lemma_py_read(*t, r, types, depth);
        },
        Ty::Ref(t) => match *t {
            Ty::DString => {
                reveal_strlit("(lambda __p, __n: ctypes.string_at(__p, __n).decode('utf-8', 'replace') if __p else \"\")(");
                reveal_strlit(".read(), ");
                reveal_strlit(".read())");
            },
            Ty::DVec(_) => {
                reveal_strlit("(lambda __p, __n: ctypes.string_at(__p, __n) if __p else b\"\")(");
                reveal_strlit(".read(), ");
                reveal_strlit(".read())");
            },
            other => lemma_py_read(other, r, types, depth),
        },
        Ty::DStr => {
            reveal_strlit("(lambda __p, __n: ctypes.string_at(__p, __n).decode('utf-8', 'replace') if __p else \"\")(");
            reveal_strlit(".read(), ");
            reveal_strlit(".read())");
        },
        Ty::DSlice(_) => {
            reveal_strlit("(lambda __p, __n: ctypes.string_at(__p, __n) if __p else b\"\")(");
            reveal_strlit(".read(), ");
            reveal_strlit(".read())");
        },
        Ty::DString => {
            reveal_strlit("(lambda __a, __p, __n, __c: DStringHandle(self, __p, __n, __a))(");
            reveal_strlit(".read(), ");
            reveal_strlit(".read())");
        },
        Ty::DVec(_) => {
            reveal_strlit("(lambda __a, __p, __n, __c: OwnedDVec(self, __p, __n, __a))(");
            reveal_strlit(".read(), ");
            reveal_strlit(".read())");
        },
        Ty::Tuple(ts) => {
            reveal_strlit("(");
            reveal_strlit(")");
            lemma_py_read_list(ts, ts.len(), r, types, depth);
        },
        Ty::Array(t, len) => if *t is U8 && len % 8 == 0 {
            reveal_strlit(".read_u64().to_bytes(8, 'little')");
            reveal_strlit("b''.join([");
            reveal_strlit("])");
            lemma_repeat(r + ".read_u64().to_bytes(8, 'little')"@, len / 8);
        } else {
            reveal_strlit("[");
            reveal_strlit("]");
            lemma_py_read(*t, r, types, depth);
            lemma_repeat(py_read_code(*t, r, types, depth), len);
        },
        Ty::Named(name) => match lookup(types, name) {
            Some(Decl::Enum(e)) => if depth > 0 {
                lemma_enum(types, name);
                lemma_py_read_enum(e, r, types, (depth - 1) as nat);
            },
            _ => {
                reveal_strlit("._from_ptr(self, ");
                reveal_strlit(".read())");
            },
        },
    }
}

proof fn lemma_py_read_list(ts: Seq<Ty>, n: nat, r: Seq<char>, types: Seq<Decl>, depth: nat)
    requires
        lacks(r, '\n'),
        n <= ts.len(),
        all_names_lack(ts, n, '\n'),
        enums_in_lines(types),
    ensures
        lacks(py_read_list(ts, n, r, types, depth), '\n'),
    decreases 4 * depth, ts, n,
{
    if n > 0 {
        reveal_strlit(", ");
        lemma_py_read(ts[n - 1], r, types, depth);
        lemma_py_read_list(ts, (n - 1) as nat, r, types, depth);
    }
}

proof fn lemma_py_read_arms(
    n: Seq<char>,
    vs: Seq<VariantModel>,
    k: nat,
    r: Seq<char>,
    types: Seq<Decl>,
    depth: nat,
)
    requires
        lacks(r, '\n'),
        lacks(n, '\n'),
        variants_in_lines(vs),
        enums_in_lines(types),
    ensures
        lacks(py_read_arms(n, vs, k, r, types, depth), '\n'),
    decreases 4 * depth + 2, vs, k,
{
    if 0 < k <= vs.len() {
        reveal_strlit("('");
        reveal_strlit("') if __d == ");
        reveal_strlit(" else ");
        reveal_strlit("', ");
        reveal_strlit(") if __d == ");
        lemma_dec((k - 1) as nat);
        let fs = vs[k - 1].fields;
        lemma_py_read_list(fs, fs.len(), r, types, depth);
        lemma_py_read_arms(n, vs, (k - 1) as nat, r, types, depth);
    }
}

proof fn lemma_py_read_enum(e: EnumModel, r: Seq<char>, types: Seq<Decl>, depth: nat)
    requires
        lacks(r, '\n'),
        enum_in_lines(e),
        enums_in_lines(types),
    ensures
        lacks(py_enum_read_expr(e, r, types, depth), '\n'),
    decreases 4 * depth + 3, e, 0nat,
{
    reveal_strlit("(lambda __d: ");
    reveal_strlit("(_ for _ in ()).throw(DynSpireError('invalid ");
    reveal_strlit(" discriminant ' + str(__d))))(");
    reveal_strlit(".read())");
    lemma_py_read_arms(e.name, e.variants, e.variants.len(), r, types, depth);
}

proof fn lemma_named(name: Seq<char>, r: Seq<char>, pad: Seq<char>)
    requires
        is_pad(pad),
        lacks(r, '\n'),
        lacks(name, '\n'),
    ensures
        body(pad + "_v = "@ + name + "._from_ptr(self, "@ + r + ".read())\n"@),
{
    reveal_strlit("_v = ");
    reveal_strlit("._from_ptr(self, ");
    reveal_strlit(".read())\n");
    lemma_statement(pad, "_v = "@ + name + "._from_ptr(self, "@ + r, ".read())\n"@);
    assert(pad + "_v = "@ + name + "._from_ptr(self, "@ + r + ".read())\n"@ =~= (pad + ("_v = "@
        + name + "._from_ptr(self, "@ + r) + ".read())\n"@));
}

proof fn lemma_optional(r: Seq<char>, pad: Seq<char>, inpad: Seq<char>, rest: Seq<char>)
    requires
        is_pad(pad),
        lacks(r, '\n'),
        is_pad(inpad),
        body(rest),
    ensures
        body(pad + "_opt = "@ + r + ".read()\n"@ + pad + "if _opt == 0:\n"@ + inpad + "_v = None\n"@
            + pad + "else:\n"@ + rest),
{
    reveal_strlit("_opt = ");
    reveal_strlit(".read()\n");
    reveal_strlit("if _opt == 0:\n");
    reveal_strlit("_v = None\n");
    reveal_strlit("else:\n");
    lemma_statement(pad, "_opt = "@ + r, ".read()\n"@);
    lemma_statement(pad, Seq::empty(), "if _opt == 0:\n"@);
    lemma_statement(inpad, Seq::empty(), "_v = None\n"@);
    lemma_statement(pad, Seq::empty(), "else:\n"@);
    let a = pad + ("_opt = "@ + r) + ".read()\n"@;
    let b = lemma_next(a, (pad + Seq::<char>::empty() + "if _opt == 0:\n"@));
    let c = lemma_next(b, (inpad + Seq::<char>::empty() + "_v = None\n"@));
    let d = lemma_next(c, (pad + Seq::<char>::empty() + "else:\n"@));
    lemma_next(d, rest);
    assert(pad + "_opt = "@ + r + ".read()\n"@ + pad + "if _opt == 0:\n"@ + inpad + "_v = None\n"@
        + pad + "else:\n"@ + rest =~= d + rest);
}

proof fn lemma_value(pad: Seq<char>, value: Seq<char>)
    requires
        is_pad(pad),
        lacks(value, '\n'),
    ensures
        body(pad + "_v = "@ + value + "\n"@),
{
    reveal_strlit("_v = ");
    reveal_strlit("\n");
    lemma_statement(pad, "_v = "@ + value, "\n"@);
    assert(pad + "_v = "@ + value + "\n"@ =~= (pad + ("_v = "@ + value) + "\n"@));
}

proof fn lemma_number(r: Seq<char>, pad: Seq<char>)
    requires
        is_pad(pad),
        lacks(r, '\n'),
    ensures
        body(pad + "_disc = "@ + r + ".read()\n"@),
{
    reveal_strlit("_disc = ");
    reveal_strlit(".read()\n");
    lemma_statement(pad, "_disc = "@ + r, ".read()\n"@);
    assert(pad + "_disc = "@ + r + ".read()\n"@ =~= (pad + ("_disc = "@ + r) + ".read()\n"@));
}

proof fn lemma_branch(kw: Seq<char>, i: int, pad: Seq<char>)
    requires
        is_pad(pad),
        lacks(kw, '\n'),
    ensures
        body(pad + kw + " _disc == "@ + dec(i as nat) + ":\n"@),
{
    reveal_strlit(" _disc == ");
    reveal_strlit(":\n");
    lemma_dec(i as nat);
    lemma_statement(pad, kw + " _disc == "@ + dec(i as nat), ":\n"@);
    assert(pad + kw + " _disc == "@ + dec(i as nat) + ":\n"@ =~= (pad + (kw + " _disc == "@
        + dec(i as nat)) + ":\n"@));
}

proof fn lemma_unit(n: Seq<char>, vn: Seq<char>, inpad: Seq<char>)
    requires
        is_pad(inpad),
        lacks(n, '\n'),
        lacks(vn, '\n'),
    ensures
        body(inpad + "_v = "@ + n + "('"@ + vn + "')\n"@),
{
    reveal_strlit("_v = ");
    reveal_strlit("('");
    reveal_strlit("')\n");
    lemma_statement(inpad, "_v = "@ + n + "('"@ + vn, "')\n"@);
    assert(inpad + "_v = "@ + n + "('"@ + vn + "')\n"@ =~= (inpad + ("_v = "@ + n + "('"@ + vn)
        + "')\n"@));
}

proof fn lemma_fields(n: Seq<char>, vn: Seq<char>, args: Seq<char>, inpad: Seq<char>)
    requires
        is_pad(inpad),
        lacks(n, '\n'),
        lacks(vn, '\n'),
        lacks(args, '\n'),
    ensures
        body(inpad + "_v = "@ + n + "('"@ + vn + "', "@ + args + ")\n"@),
{
    reveal_strlit("_v = ");
    reveal_strlit("('");
    reveal_strlit("', ");
    reveal_strlit(")\n");
    lemma_statement(inpad, "_v = "@ + n + "('"@ + vn + "', "@ + args, ")\n"@);
    assert(inpad + "_v = "@ + n + "('"@ + vn + "', "@ + args + ")\n"@ =~= (inpad + ("_v = "@ + n
        + "('"@ + vn + "', "@ + args) + ")\n"@));
}

proof fn lemma_unknown(n: Seq<char>, pad: Seq<char>, inpad: Seq<char>)
    requires
        is_pad(pad),
        is_pad(inpad),
        lacks(n, '\n'),
    ensures
        body(pad + "else:\n"@ + inpad + "raise DynSpireError('invalid "@ + n
            + " discriminant ' + str(_disc))\n"@),
{
    reveal_strlit("else:\n");
    reveal_strlit("raise DynSpireError('invalid ");
    reveal_strlit(" discriminant ' + str(_disc))\n");
    lemma_statement(pad, Seq::empty(), "else:\n"@);
    lemma_statement(inpad, "raise DynSpireError('invalid "@ + n,
        " discriminant ' + str(_disc))\n"@);
    let a = pad + Seq::<char>::empty() + "else:\n"@;
    lemma_next(a, (inpad + ("raise DynSpireError('invalid "@ + n)
        + " discriminant ' + str(_disc))\n"@));
    assert(pad + "else:\n"@ + inpad + "raise DynSpireError('invalid "@ + n
        + " discriminant ' + str(_disc))\n"@ =~= a + (inpad + ("raise DynSpireError('invalid "@ + n)
        + " discriminant ' + str(_disc))\n"@));
}

proof fn lemma_py_read_variants(
    e: EnumModel,
    k: nat,
    r: Seq<char>,
    types: Seq<Decl>,
    pad: Seq<char>,
)
    requires
        is_pad(pad),
        lacks(r, '\n'),
        k <= e.variants.len(),
        enum_in_lines(e),
        enums_in_lines(types),
    ensures
        body(py_read_variants(e, k, r, types, pad)),
    decreases k,
{
    if k == 0 {
        lemma_number(r, pad);
    } else {
        let i = k - 1;
        let inpad = pad + "    "@;
        lemma_pads(pad);
        let kw = if i == 0 {
            "if"@
        } else {
            "elif"@
        };
        reveal_strlit("if");
        reveal_strlit("elif");
        let n = e.name;
        let vn = e.variants[i].name;
        let fs = e.variants[i].fields;
        let args = py_read_list(fs, fs.len(), r, types, types.len());
        lemma_py_read_list(fs, fs.len(), r, types, types.len());
        let before = py_read_variants(e, i as nat, r, types, pad);
        lemma_py_read_variants(e, i as nat, r, types, pad);
        let a = pad + kw + " _disc == "@ + dec(i as nat) + ":\n"@;
        lemma_branch(kw, i, pad);
        lemma_next(before, a);
        if fs.len() == 0 {
            lemma_unit(n, vn, inpad);
            lemma_next(before + a, inpad + "_v = "@ + n + "('"@ + vn + "')\n"@);
        } else {
            lemma_fields(n, vn, args, inpad);
            lemma_next(before + a, inpad + "_v = "@ + n + "('"@ + vn + "', "@ + args + ")\n"@);
        }
    }
}

proof fn lemma_py_decode(ft: Ty, r: Seq<char>, types: Seq<Decl>, pad: Seq<char>)
    requires
        is_pad(pad),
        lacks(r, '\n'),
        names_lack(ft, '\n'),
        enums_in_lines(types),
    ensures
        body(py_decode_code(ft, r, types, pad)),
    decreases ft,
{
    let inpad = pad + "    "@;
    lemma_pads(pad);
    match ft {
        Ty::Unit => {},
        Ty::Named(name) => match lookup(types, name) {
            Some(Decl::Enum(e)) => {
                lemma_enum(types, name);
                let n = e.name;
                let x = py_read_variants(e, e.variants.len(), r, types, pad);
                lemma_py_read_variants(e, e.variants.len(), r, types, pad);
                lemma_unknown(n, pad, inpad);
                lemma_next(x, pad + "else:\n"@ + inpad + "raise DynSpireError('invalid "@ + n
                    + " discriminant ' + str(_disc))\n"@);
            },
            _ => lemma_named(name, r, pad),
        },
        Ty::Option(t) => {
            lemma_py_decode(*t, r, types, inpad);
            lemma_optional(r, pad, inpad, py_decode_code(*t, r, types, inpad));
        },
        _ => {
            lemma_py_read(ft, r, types, types.len());
            lemma_value(pad, py_read_code(ft, r, types, types.len()));
        },
    }
}

// ---------------------------------------------------------------------------
// Methods
// ---------------------------------------------------------------------------

proof fn lemma_outs(n: nat)
    ensures
        lacks(outvec_reads(n), '\n'),
    decreases n,
{
    if n > 0 {
        lemma_outs((n - 1) as nat);
        lemma_dec((n - 1) as nat);
        reveal_strlit("self._read_outvec(");
        reveal_strlit(")");
        reveal_strlit(", ");
    }
}

proof fn lemma_sig(ps: Seq<ParamModel>, n: nat)
    requires
        n <= ps.len(),
        forall|i: int| 0 <= i < ps.len() ==> is_name((#[trigger] ps[i]).name),
    ensures
        lacks(py_params(ps, n), '\n'),
    decreases n,
{
    if n > 0 {
        lemma_sig(ps, (n - 1) as nat);
        lemma_name(ps[n - 1].name);
        reveal_strlit(", ");
    }
}

proof fn lemma_ident_char(c: char)
    requires
        c as u32 <= 127,
        in_ident(c as u8),
    ensures
        c != '\n' && c != '(' && c != ':' && c != '\'',
        ascii_lower(c) != '\n',
{
    assert(c as u8 == c as u32);
}

/// Identifiers hold no line end and no bracket.
proof fn lemma_name(s: Seq<char>)
    requires
        is_name(s),
    ensures
        lacks(s, '\n'),
        lacks(s, '('),
        lacks(s, ':'),
        lacks(lower_text(s), '\n'),
{
    assert forall|i: int| 0 <= i < s.len() implies #[trigger] s[i] != '\n' && s[i] != '(' && s[i]
        != ':' && ascii_lower(s[i]) != '\n' by {
        lemma_ident_char(s[i]);
    }
    assert(all_ascii(s));
}

proof fn lemma_lawful_names(t: Ty, native: bool)
    requires
        lawful(t, native),
    ensures
        names_lack(t, '\n'),
    decreases t, 0nat,
{
    match t {
        Ty::Named(name) => lemma_name(name),
        Ty::Vec(t) => lemma_lawful_names(*t, native),
        Ty::Option(t) => lemma_lawful_names(*t, native),
        Ty::DSlice(t) => lemma_lawful_names(*t, native),
        Ty::DVec(t) => lemma_lawful_names(*t, native),
        Ty::DOption(t) => lemma_lawful_names(*t, native),
        Ty::Ref(t) => lemma_lawful_names(*t, native),
        Ty::RefMut(t) => lemma_lawful_names(*t, true),
        Ty::Array(t, _) => lemma_lawful_names(*t, native),
        Ty::Tuple(ts) => lemma_lawful_list(ts, ts.len(), native),
        _ => {},
    }
}

proof fn lemma_lawful_list(ts: Seq<Ty>, n: nat, native: bool)
    requires
        n <= ts.len(),
        all_lawful(ts, n, native),
    ensures
        all_names_lack(ts, n, '\n'),
    decreases ts, n,
{
    if n > 0 {
        lemma_lawful_names(ts[n - 1], native);
        lemma_lawful_list(ts, (n - 1) as nat, native);
    }
}

proof fn lemma_field_names(ts: Seq<Ty>, n: nat)
    requires
        n <= ts.len(),
        forall|i: int| 0 <= i < ts.len() ==> lawful(#[trigger] ts[i], true),
    ensures
        all_names_lack(ts, n, '\n'),
    decreases n,
{
    if n > 0 {
        lemma_lawful_names(ts[n - 1], true);
        lemma_field_names(ts, (n - 1) as nat);
    }
}

proof fn lemma_lawful_enums(types: Seq<Decl>)
    requires
        lawful_decls(types),
    ensures
        enums_in_lines(types),
{
    assert forall|i: int| 0 <= i < types.len() implies ((#[trigger] types[i]) matches Decl::Enum(e)
        ==> enum_in_lines(e)) by {
        if let Decl::Enum(e) = types[i] {
            lemma_name(e.name);
            assert forall|k: int| 0 <= k < e.variants.len() implies lacks(
                (#[trigger] e.variants[k]).name,
                '\n',
            ) && all_names_lack(e.variants[k].fields, e.variants[k].fields.len(), '\n') by {
                assert(lawful_variant(e.variants[k]));
                lemma_name(e.variants[k].name);
                lemma_field_names(e.variants[k].fields, e.variants[k].fields.len());
            }
        }
    }
}

proof fn lemma_param_writes(ps: Seq<ParamModel>, n: nat, types: Seq<Decl>)
    requires
        n <= ps.len(),
        forall|i: int| 0 <= i < ps.len() ==> is_name((#[trigger] ps[i]).name),
        enums_in_lines(types),
    ensures
        body(py_param_writes(ps, n, types)),
    decreases n,
{
    if n > 0 {
        let before = py_param_writes(ps, (n - 1) as nat, types);
        let k = out_count(ps, (n - 1) as nat);
        lemma_param_writes(ps, (n - 1) as nat, types);
        lemma_name(ps[n - 1].name);
        reveal_strlit("        ");
        reveal_strlit("_w");
        if is_out(ps[n - 1].ty) {
            lemma_dec(k);
            reveal_strlit("        _ov");
            reveal_strlit(" = self._new_outvec()\n        _w.write_u64(_ov");
            reveal_strlit(")\n");
            let a = "        _ov"@ + dec(k);
            lemma_go_on("        _ov"@, dec(k));
            let b = lemma_go_on(a, " = self._new_outvec()\n        _w.write_u64(_ov"@);
            lemma_go_on(b, dec(k) + ")\n"@);
            assert(b + dec(k) + ")\n"@ =~= b + (dec(k) + ")\n"@));
            lemma_next(before, b + dec(k) + ")\n"@);
        } else {
            lemma_py_write(ps[n - 1].ty, ps[n - 1].name, "_w"@, types, "        "@, types.len());
            lemma_next(
                before,
                py_write_code(
                    ps[n - 1].ty,
                    ps[n - 1].name,
                    "_w"@,
                    types,
                    "        "@,
                    types.len(),
                ),
            );
        }
    }
}

proof fn lemma_dispatch(name: Seq<char>)
    requires
        lacks(name, '\n'),
    ensures
        body("        _out = new_out_array()\n        self._dispatch('"@ + name + r#"', _w, _out)
        _r = OutReader(_out, self)
        _tag = _r.read()
        if _tag == 1:
            _err = _r.read_string()
            _r.release_owned()
            raise DynSpireError(_err)
"#@),
{
    reveal_strlit("        _out = new_out_array()\n        self._dispatch('");
    reveal_strlit(r#"', _w, _out)
        _r = OutReader(_out, self)
        _tag = _r.read()
        if _tag == 1:
            _err = _r.read_string()
            _r.release_owned()
            raise DynSpireError(_err)
"#);
    let a = "        _out = new_out_array()\n        self._dispatch('"@;
    lemma_go_on(a, name);
    assert((a + name).last() != '\n');
    lemma_go_on(a + name, r#"', _w, _out)
        _r = OutReader(_out, self)
        _tag = _r.read()
        if _tag == 1:
            _err = _r.read_string()
            _r.release_owned()
            raise DynSpireError(_err)
"#@);
}

proof fn lemma_return(m: MethodModel, types: Seq<Decl>)
    requires
        names_lack(m.return_type, '\n'),
        enums_in_lines(types),
    ensures
        body(py_return_decode(m.return_type, types)),
{
    reveal_strlit("        ");
    reveal_strlit("_r");
    reveal_strlit("        _r.release_owned()\n");
    let x = py_decode_code(m.return_type, "_r"@, types, "        "@);
    lemma_py_decode(m.return_type, "_r"@, types, "        "@);
    lemma_next(x, "        _r.release_owned()\n"@);
}

proof fn lemma_tail(unit: bool, outs: nat)
    ensures
        body(py_return_tail(unit, outs)),
{
    reveal_strlit("        return None, _outs\n\n");
    reveal_strlit("        return _v, _outs\n\n");
    reveal_strlit("        return None\n\n");
    reveal_strlit("        return _v\n\n");
    reveal_strlit("        _outs = [");
    reveal_strlit("]\n        self._outvecs = []\n");
    let lst = outvec_reads(outs);
    lemma_outs(outs);
    let a = "        _outs = ["@;
    lemma_go_on(a, lst);
    assert((a + lst).last() != '\n');
    lemma_go_on(a + lst, "]\n        self._outvecs = []\n"@);
    let b = a + lst + "]\n        self._outvecs = []\n"@;
    lemma_next(b, "        return None, _outs\n\n"@);
    lemma_next(b, "        return _v, _outs\n\n"@);
}

/// The text of a method behind its definition line.
spec fn method_body(m: MethodModel, types: Seq<Decl>) -> Seq<char> {
    let name = m.name;
    let n = m.params.len();
    "        _w = SlotWriter()\n"@ + py_param_writes(m.params, n, types) + ("        _out = new_out_array()\n        self._dispatch('"@ + name + r#"', _w, _out)
        _r = OutReader(_out, self)
        _tag = _r.read()
        if _tag == 1:
            _err = _r.read_string()
            _r.release_owned()
            raise DynSpireError(_err)
"#@)
        + py_return_decode(m.return_type, types) + py_return_tail(
        m.return_type is Unit,
        out_count(m.params, n),
    )
}

proof fn lemma_method(m: MethodModel, types: Seq<Decl>)
    requires
        lawful_method(m),
        named_params(m),
        enums_in_lines(types),
    ensures
        py_method_code(m, types) == def_line(m) + method_body(m, types),
        body(method_body(m, types)),
        whole_lines(def_line(m)),
        lacks(def_line(m).drop_last(), '\n'),
{
    let name = m.name;
    let n = m.params.len();
    let sig = py_params(m.params, n);
    lemma_name(name);
    lemma_sig(m.params, n);
    reveal_strlit("    def ");
    reveal_strlit("(self");
    reveal_strlit("):\n");
    reveal_strlit("        _w = SlotWriter()\n");
    reveal_strlit("):\n        _w = SlotWriter()\n");
    assert("):\n        _w = SlotWriter()\n"@ =~= "):\n"@ + "        _w = SlotWriter()\n"@);
    let a = "        _w = SlotWriter()\n"@;
    let b = py_param_writes(m.params, n, types);
    let c = "        _out = new_out_array()\n        self._dispatch('"@ + name + r#"', _w, _out)
        _r = OutReader(_out, self)
        _tag = _r.read()
        if _tag == 1:
            _err = _r.read_string()
            _r.release_owned()
            raise DynSpireError(_err)
"#@;
    let d = py_return_decode(m.return_type, types);
    let e = py_return_tail(m.return_type is Unit, out_count(m.params, n));
    lemma_param_writes(m.params, n, types);
    lemma_dispatch(name);
    lemma_lawful_names(m.return_type, true);
    lemma_return(m, types);
    lemma_tail(m.return_type is Unit, out_count(m.params, n));
    lemma_next(a, b);
    lemma_next(a + b, c);
    lemma_next(a + b + c, d);
    lemma_next(a + b + c + d, e);
    assert(py_method_code(m, types) =~= def_line(m) + method_body(m, types));
}

// ---------------------------------------------------------------------------
// The client
// ---------------------------------------------------------------------------

/// How a line of `s` that opens the client class starts.
pub open spec fn class_start(name: Seq<char>) -> Seq<char> {
    "class "@ + name + "(SpierClient):"@
}

/// How a line that opens the definition of a method starts.
pub open spec fn def_start(name: Seq<char>) -> Seq<char> {
    "    def "@ + name + "(self"@
}

/// The number of methods among the first `n` that have this name.
pub open spec fn methods_named(iface: InterfaceModel, name: Seq<char>, n: nat) -> nat
    decreases n,
{
    if n == 0 {
        0
    } else {
        methods_named(iface, name, (n - 1) as nat) + (if iface.methods[n - 1].name == name {
            1nat
        } else {
            0
        })
    }
}

/// Lines with a body are no lines that open a class or a method.
proof fn lemma_body_lines(p: Seq<char>, s: Seq<char>)
    requires
        deep(s),
        p.len() > 4,
        p[0] != '\n',
        p[0] != ' ' || p[4] != ' ',
    ensures
        lines_with(p, s) == 0,
{
    assert forall|i: int| 0 <= i < s.len() && #[trigger] stands_at(p, s, i) implies !starts_line(
        s,
        i,
    ) by {
        lemma_stands(p, s, i);
        if starts_line(s, i) {
            assert(deep_at(s, i));
            assert(s[i + 0] == p[0] && s[i + 4] == p[4]);
        }
    }
    lemma_no_lines(p, s, s.len());
}

/// What stands before a bracket differs if names differ.
proof fn lemma_other_name(
    open: Seq<char>,
    a: Seq<char>,
    b: Seq<char>,
    end: Seq<char>,
    rest: Seq<char>,
)
    requires
        lacks(a, '('),
        lacks(b, '('),
        end.len() > 0,
        end[0] == '(',
        rest.len() > 0,
        rest[0] == '(',
        stands_at(open + a + end, open + b + rest, 0),
    ensures
        a == b,
{
    let p = open + a + end;
    let s = open + b + rest;
    lemma_stands(p, s, 0);
    let n = open.len() as int;
    if a.len() < b.len() {
        assert(s[0 + (n + a.len())] == p[n + a.len()]);
        assert(b[a.len() as int] == '(');
    } else if b.len() < a.len() {
        assert(s[0 + (n + b.len())] == p[n + b.len()]);
        assert(a[b.len() as int] == '(');
    } else {
        assert forall|i: int| 0 <= i < a.len() implies a[i] == b[i] by {
            assert(s[0 + (n + i)] == p[n + i]);
        }
        assert(a =~= b);
    }
}

proof fn lemma_def(name: Seq<char>, m: MethodModel)
    requires
        is_name(name),
        is_name(m.name),
        def_line(m).len() > 0,
        lacks(def_line(m).drop_last(), '\n'),
    ensures
        lines_with(def_start(name), def_line(m)) == if m.name == name {
            1nat
        } else {
            0
        },
{
    let p = def_start(name);
    let s = def_line(m);
    let sig = py_params(m.params, m.params.len());
    reveal_strlit("    def ");
    reveal_strlit("(self");
    reveal_strlit("):\n");
    lemma_name(name);
    lemma_name(m.name);
    lemma_single_line(p, s, s.len());
    let rest = "(self"@ + sig + "):\n"@;
    assert(s =~= "    def "@ + m.name + rest);
    if m.name == name {
        assert(s.subrange(0, p.len() as int) =~= p);
    } else if stands_at(p, s, 0) {
        lemma_other_name("    def "@, name, m.name, "(self"@, rest);
    }
}

proof fn lemma_method_lines(iface: InterfaceModel, name: Seq<char>, n: nat)
    requires
        lawful_interface(iface),
        forall|i: int| 0 <= i < iface.methods.len() ==> named_params(#[trigger] iface.methods[i]),
        is_name(name),
        n <= iface.methods.len(),
    ensures
        whole_lines(py_methods_code(iface, n)),
        lines_with(def_start(name), py_methods_code(iface, n)) == methods_named(iface, name, n),
        lines_with(class_start(name), py_methods_code(iface, n)) == 0,
    decreases n,
{
    if n > 0 {
        let m = iface.methods[n - 1];
        assert(lawful_method(m) && named_params(m));
        lemma_method_lines(iface, name, (n - 1) as nat);
        lemma_lawful_enums(iface.types);
        lemma_method(m, iface.types);
        let x = py_methods_code(iface, (n - 1) as nat);
        let d = def_line(m);
        let b = method_body(m, iface.types);
        let p = def_start(name);
        let q = class_start(name);
        lemma_name(name);
        lemma_name(m.name);
        reveal_strlit("    def ");
        reveal_strlit("(self");
        reveal_strlit("class ");
        reveal_strlit("(SpierClient):");
        lemma_lines_add_up(p, x, d + b);
        lemma_lines_add_up(p, d, b);
        lemma_lines_add_up(q, x, d + b);
        lemma_lines_add_up(q, d, b);
        lemma_body_lines(p, b);
        lemma_body_lines(q, b);
        lemma_def(name, m);
        lemma_single_line(q, d, d.len());
        lemma_stands(q, d, 0);
        assert(d[0] == ' ' && q[0] == 'c');
        if stands_at(q, d, 0) {
            assert(d[0int + 0] == q[0]);
        }
        if b.len() == 0 {
            assert(d + b =~= d);
        } else {
            assert((d + b).last() == b.last());
        }
        assert((x + (d + b)).last() == (d + b).last());
    }
}

proof fn lemma_head(iface: InterfaceModel, name: Seq<char>)
    requires
        is_name(iface.name),
        is_name(name),
    ensures
        whole_lines(py_client_head(iface)),
        lines_with(class_start(iface.name), py_client_head(iface)) == 1,
        lines_with(def_start(name), py_client_head(iface)) == 0,
{
    let cn = iface.name;
    let lower = lower_text(cn);
    lemma_name(cn);
    lemma_name(name);
    reveal_strlit("# --- Client ---\n\nclass ");
    reveal_strlit("(SpierClient):\n    _spier_name = '");
    reveal_strlit("'\n    _idl_hash_const = _IDL_HASH\n\n");
    reveal_strlit("# --- Client ---\n\n");
    reveal_strlit("class ");
    reveal_strlit("(SpierClient):");
    reveal_strlit("\n");
    reveal_strlit("    _spier_name = '");
    reveal_strlit("'\n");
    reveal_strlit("    _idl_hash_const = _IDL_HASH\n\n");
    reveal_strlit("    def ");
    reveal_strlit("(self");
    let a = "# --- Client ---\n\n"@;
    let b = class_start(cn) + "\n"@;
    let c = "    _spier_name = '"@ + lower + "'\n"@;
    let d = "    _idl_hash_const = _IDL_HASH\n\n"@;
    let p = class_start(cn);
    let q = def_start(name);
    assert("# --- Client ---\n\nclass "@ =~= a + "class "@);
    assert("(SpierClient):\n    _spier_name = '"@ =~= "(SpierClient):"@ + "\n"@
        + "    _spier_name = '"@);
    assert("'\n    _idl_hash_const = _IDL_HASH\n\n"@ =~= "'\n"@ + d);
    assert(py_client_head(iface) =~= a + b + c + d);
    lemma_lines_add_up(p, a, b);
    lemma_lines_add_up(p, a + b, c);
    lemma_lines_add_up(p, a + b + c, d);
    lemma_lines_add_up(q, a, b);
    lemma_lines_add_up(q, a + b, c);
    lemma_lines_add_up(q, a + b + c, d);
    assert forall|i: int| #![trigger stands_at(p, a, i)] #![trigger stands_at(q, a, i)]
        0 <= i < a.len() && starts_line(a, i) implies !stands_at(p, a, i) && !stands_at(q, a,
            i) by {
        lemma_stands(p, a, i);
        lemma_stands(q, a, i);
        if stands_at(p, a, i) {
            assert(a[i + 0] == p[0]);
        }
        if stands_at(q, a, i) {
            assert(a[i + 0] == q[0]);
        }
    }
    lemma_no_lines(p, a, a.len());
    lemma_no_lines(q, a, a.len());
    lemma_single_line(p, b, b.len());
    assert(b.subrange(0, p.len() as int) =~= p);
    lemma_single_line(q, b, b.len());
    lemma_stands(q, b, 0);
    if stands_at(q, b, 0) {
        assert(b[0int + 0] == q[0]);
    }
    lemma_single_line(p, c, c.len());
    lemma_single_line(q, c, c.len());
    lemma_stands(p, c, 0);
    lemma_stands(q, c, 0);
    if stands_at(p, c, 0) {
        assert(c[0int + 0] == p[0]);
    }
    if stands_at(q, c, 0) {
        assert(c[0int + 4] == q[4]);
    }
    assert forall|i: int| #![trigger stands_at(p, d, i)] #![trigger stands_at(q, d, i)]
        0 <= i < d.len() && starts_line(d, i) implies !stands_at(p, d, i) && !stands_at(q, d,
            i) by {
        lemma_stands(p, d, i);
        lemma_stands(q, d, i);
        if stands_at(p, d, i) {
            assert(d[i + 0] == p[0]);
        }
        if stands_at(q, d, i) {
            assert(d[i + 0] == q[0] && d[i + 4] == q[4]);
        }
    }
    lemma_no_lines(p, d, d.len());
    lemma_no_lines(q, d, d.len());
}

/// Whether no two methods have the same name.
pub open spec fn distinct_methods(iface: InterfaceModel) -> bool {
    forall|i: int, j: int|
        0 <= i < j < iface.methods.len() ==> (#[trigger] iface.methods[i]).name != (
        #[trigger] iface.methods[j]).name
}

proof fn lemma_named_once(iface: InterfaceModel, i: int, n: nat)
    requires
        distinct_methods(iface),
        0 <= i < iface.methods.len(),
        n <= iface.methods.len(),
    ensures
        methods_named(iface, iface.methods[i].name, n) == if i < n {
            1nat
        } else {
            0
        },
    decreases n,
{
    if n > 0 {
        lemma_named_once(iface, i, (n - 1) as nat);
    }
}

/// In the Python client of an interface one line opens the class, and as many
/// lines open a definition of a method's name as methods have the name: one, if
/// no two methods have the same.
pub proof fn client_lines_stand_once(iface: InterfaceModel, i: int)
    requires
        lawful_interface(iface),
        forall|j: int| 0 <= j < iface.methods.len() ==> named_params(#[trigger] iface.methods[j]),
        0 <= i < iface.methods.len(),
    ensures
        lines_with(class_start(iface.name), py_client_code(iface)) == 1,
        lines_with(def_start(iface.methods[i].name), py_client_code(iface)) == methods_named(
            iface,
            iface.methods[i].name,
            iface.methods.len(),
        ),
        distinct_methods(iface) ==> lines_with(
            def_start(iface.methods[i].name),
            py_client_code(iface),
        ) == 1,
{
    let m = iface.methods[i];
    assert(lawful_method(m));
    let head = py_client_head(iface);
    let methods = py_methods_code(iface, iface.methods.len());
    let p = class_start(iface.name);
    let q = def_start(m.name);
    lemma_head(iface, m.name);
    lemma_method_lines(iface, iface.name, iface.methods.len());
    lemma_method_lines(iface, m.name, iface.methods.len());
    lemma_name(iface.name);
    lemma_name(m.name);
    reveal_strlit("class ");
    reveal_strlit("(SpierClient):");
    reveal_strlit("    def ");
    reveal_strlit("(self");
    assert(py_client_code(iface) =~= head + methods);
    lemma_lines_add_up(p, head, methods);
    lemma_lines_add_up(q, head, methods);
    if distinct_methods(iface) {
        lemma_named_once(iface, i, iface.methods.len());
    }
}

// ---------------------------------------------------------------------------
// Type classes
// ---------------------------------------------------------------------------

/// Whether the line of `s` at the place `i` is closed.
spec fn closed_at(s: Seq<char>, i: int) -> bool {
    exists|e: int| i <= e < s.len() && #[trigger] s[e] == '\n'
}

/// Whether every line of `s` that starts with a `c` is closed, and does not
/// start with `p`.
spec fn clear(p: Seq<char>, s: Seq<char>) -> bool {
    forall|i: int| 0 <= i < s.len() && s[i] == 'c' && #[trigger] starts_line(s, i) ==> closed_at(
        s,
        i,
    ) && !stands_at(p, s, i)
}

/// Whether `v` adds no line that starts with a `c` to `x`.
spec fn adds_no_class(x: Seq<char>, v: Seq<char>) -> bool {
    &&& v.len() > 0 && v[0] == 'c' ==> x.len() > 0 && x.last() != '\n'
    &&& forall|i: int| 0 < i < v.len() && #[trigger] v[i] == 'c' ==> v[i - 1] != '\n'
}

/// How a line that opens a class starts, other than that of a client.
spec fn is_class_end(end: Seq<char>) -> bool {
    &&& end.len() > 1
    &&& end.last() == '\n'
    &&& lacks(end.drop_last(), '\n')
    &&& end[0] == ':' && end.len() == 2 || end[0] == '(' && end[1] != 'S'
}

proof fn lemma_clear_add(p: Seq<char>, x: Seq<char>, v: Seq<char>) -> (s: Seq<char>)
    requires
        lacks(p, '\n'),
        clear(p, x),
        adds_no_class(x, v),
    ensures
        s == x + v,
        clear(p, x + v),
{
    let t = x + v;
    assert forall|i: int| 0 <= i < t.len() && t[i] == 'c' && #[trigger] starts_line(
        t,
        i,
    ) implies closed_at(t, i) && !stands_at(p, t, i) by {
        if i < x.len() {
            assert(starts_line(x, i));
            let e = choose|e: int| i <= e < x.len() && #[trigger] x[e] == '\n';
            assert(t[e] == '\n');
            lemma_stands(p, t, i);
            lemma_stands(p, x, i);
            if stands_at(p, t, i) && i + p.len() > x.len() {
                assert(t[i + (e - i)] == p[e - i]);
            }
        } else {
            assert(v[i - x.len()] == 'c');
        }
    }
    x + v
}

/// Behind closed lines, a class line of another kind.
proof fn lemma_class_line(
    name: Seq<char>,
    x: Seq<char>,
    n: Seq<char>,
    end: Seq<char>,
)
    requires
        is_name(name),
        lacks(n, '\n'),
        lacks(n, '('),
        is_class_end(end),
        clear(class_start(name), x),
        whole_lines(x),
    ensures
        clear(class_start(name), x + ("class "@ + n + end)),
        whole_lines(x + ("class "@ + n + end)),
{
    let p = class_start(name);
    let l = "class "@ + n + end;
    let s = x + l;
    lemma_name(name);
    reveal_strlit("class ");
    reveal_strlit("(SpierClient):");
    assert(s.last() == '\n');
    assert forall|i: int| 0 <= i < s.len() && s[i] == 'c' && #[trigger] starts_line(
        s,
        i,
    ) implies closed_at(s, i) && !stands_at(p, s, i) by {
        assert(s[s.len() - 1] == '\n');
        lemma_stands(p, s, i);
        if i < x.len() {
            assert(starts_line(x, i));
            let e = choose|e: int| i <= e < x.len() && #[trigger] x[e] == '\n';
            lemma_stands(p, x, i);
            if stands_at(p, s, i) && i + p.len() > x.len() {
                assert(s[i + (e - i)] == p[e - i]);
            }
        } else if i > x.len() {
            let k = i - 1 - x.len();
            assert(s[i - 1] == l[k]);
            if k >= 6 + n.len() {
                assert(l[k] == end.drop_last()[k - 6 - n.len()]);
            } else if k >= 6 {
                assert(l[k] == n[k - 6]);
            }
        } else if stands_at(p, s, i) {
            lemma_stands(p, l, 0);
            assert forall|j: int| 0 <= j < p.len() implies l[0 + j] == #[trigger] p[j] by {
                assert(s[i + j] == p[j]);
            }
            if end[0] == '(' {
                lemma_other_name("class "@, name, n, "(SpierClient):"@, end);
                let k = 7 + n.len() as int;
                assert(l[0 + k] == p[k]);
            } else {
                let k = 6 + name.len() as int;
                assert(l[0 + k] == p[k]);
                assert(n[name.len() as int] == '(');
            }
        }
    }
}

proof fn lemma_clear_lines(p: Seq<char>, s: Seq<char>)
    requires
        p.len() > 0,
        p[0] == 'c',
        clear(p, s),
    ensures
        lines_with(p, s) == 0,
{
    assert forall|i: int| 0 <= i < s.len() && #[trigger] stands_at(p, s, i) implies !starts_line(
        s,
        i,
    ) by {
        lemma_stands(p, s, i);
        assert(s[i + 0] == p[0]);
    }
    lemma_no_lines(p, s, s.len());
}

/// Whether no name in a list of fields holds a line end.
spec fn fields_in_lines(fs: Seq<(Seq<char>, Ty)>) -> bool {
    forall|i: int| 0 <= i < fs.len() ==> lacks((#[trigger] fs[i]).0, '\n') && names_lack(
        fs[i].1,
        '\n',
    )
}

proof fn lemma_default(ft: Ty)
    requires
        names_lack(ft, '\n'),
    ensures
        lacks(default_value(ft), '\n'),
    decreases ft,
{
    reveal_strlit("0");
    reveal_strlit("0.0");
    reveal_strlit("None");
    reveal_strlit("._default()");
    if let Ty::Ref(t) = ft {
        lemma_default(*t);
    }
}

proof fn lemma_ctypes(ft: Ty, types: Seq<Decl>, depth: nat)
    requires
        names_lack(ft, '\n'),
        enums_in_lines(types),
    ensures
        lacks(ctypes_field(ft, types, depth), '\n'),
    decreases 4 * depth, ft, 0nat,
{
    match ft {
        Ty::Ref(t) => match *t {
            Ty::DString => reveal_strlit("DStr"),
            Ty::DVec(_) => reveal_strlit("DStr"),
            other => {
                lemma_ctypes(other, types, depth);
                assert(ctypes_field(ft, types, depth) == ctypes_field(other, types, depth));
            },
        },
        Ty::Tuple(ts) => {
            reveal_strlit("type('Tuple', (ctypes.Structure,), {'_fields_': [");
            reveal_strlit("]})");
            lemma_ctypes_list(ts, ts.len(), types, depth);
        },
        Ty::Array(t, len) => {
            reveal_strlit("(");
            reveal_strlit(" * ");
            reveal_strlit(")");
            lemma_dec(len);
            lemma_ctypes(*t, types, depth);
        },
        Ty::Named(name) => {
            reveal_strlit("Ctypes");
            reveal_strlit("ctypes.c_uint32");
            reveal_strlit("ctypes.c_uint64");
            reveal_strlit("type('");
            reveal_strlit("', (ctypes.Structure,), {'_fields_': []})");
            if let Some(Decl::Enum(e)) = lookup(types, name) {
                if depth > 0 {
                    lemma_enum(types, name);
                    lemma_enum_ctypes(e, types, (depth - 1) as nat);
                }
            }
        },
        _ => {
            reveal_strlit("ctypes.c_uint8");
            reveal_strlit("ctypes.c_uint16");
            reveal_strlit("ctypes.c_uint32");
            reveal_strlit("ctypes.c_uint64");
            reveal_strlit("ctypes.c_int8");
            reveal_strlit("ctypes.c_int16");
            reveal_strlit("ctypes.c_int32");
            reveal_strlit("ctypes.c_int64");
            reveal_strlit("ctypes.c_float");
            reveal_strlit("ctypes.c_double");
            reveal_strlit("DString");
            reveal_strlit("DVec");
            reveal_strlit("DStr");
            reveal_strlit("DOption");
        },
    }
}

proof fn lemma_enum_ctypes(e: EnumModel, types: Seq<Decl>, depth: nat)
    requires
        enum_in_lines(e),
        enums_in_lines(types),
    ensures
        lacks(enum_ctypes(e, types, depth), '\n'),
    decreases 4 * depth + 3, e, 0nat,
{
    reveal_strlit("ctypes.c_uint32");
    reveal_strlit("type('");
    reveal_strlit("', (ctypes.Structure,), {'_fields_': [('tag', ctypes.c_uint32), ('payload', type('");
    reveal_strlit("Payload', (ctypes.Union,), {'_fields_': [");
    reveal_strlit("]}))]})");
    lemma_payload(e.name, e.variants, e.variants.len(), types, depth);
}

proof fn lemma_ctypes_list(ts: Seq<Ty>, n: nat, types: Seq<Decl>, depth: nat)
    requires
        n <= ts.len(),
        all_names_lack(ts, n, '\n'),
        enums_in_lines(types),
    ensures
        lacks(ctypes_list(ts, n, types, depth), '\n'),
    decreases 4 * depth, ts, n,
{
    if n > 0 {
        reveal_strlit("('_");
        reveal_strlit("', ");
        reveal_strlit(")");
        reveal_strlit(", ");
        lemma_dec((n - 1) as nat);
        lemma_ctypes(ts[n - 1], types, depth);
        lemma_ctypes_list(ts, (n - 1) as nat, types, depth);
    }
}

proof fn lemma_payload(
    n: Seq<char>,
    vs: Seq<VariantModel>,
    k: nat,
    types: Seq<Decl>,
    depth: nat,
)
    requires
        lacks(n, '\n'),
        variants_in_lines(vs),
        enums_in_lines(types),
    ensures
        lacks(payload_list(n, vs, k, types, depth), '\n'),
    decreases 4 * depth + 2, vs, k,
{
    if 0 < k <= vs.len() {
        reveal_strlit("('");
        reveal_strlit("', type('");
        reveal_strlit("', (ctypes.Structure,), {'_fields_': [");
        reveal_strlit("]}))");
        reveal_strlit(", ");
        lemma_ctypes_list(vs[k - 1].fields, vs[k - 1].fields.len(), types, depth);
        lemma_payload(n, vs, (k - 1) as nat, types, depth);
    }
}

proof fn lemma_items(item: FieldItem, fs: Seq<(Seq<char>, Ty)>, n: nat, sep: Seq<char>)
    requires
        n <= fs.len(),
        fields_in_lines(fs),
        lacks(sep, '\n'),
    ensures
        lacks(item_list(item, fs, n, sep), '\n'),
    decreases n,
{
    if n > 0 {
        reveal_strlit("'_");
        reveal_strlit("'");
        reveal_strlit("self._");
        reveal_strlit("buf.");
        reveal_strlit("=");
        reveal_strlit("=' + repr(self._");
        reveal_strlit(")");
        reveal_strlit(" == other._");
        lemma_default(fs[n - 1].1);
        assert(lacks(field_item(item, fs[n - 1].0, fs[n - 1].1), '\n'));
        lemma_items(item, fs, (n - 1) as nat, sep);
    }
}

/// Whether `v` goes on in a line, and adds no line that starts with a `c`.
spec fn steady(v: Seq<char>) -> bool {
    &&& v.len() > 0
    &&& v[0] != 'c'
    &&& v.last() != '\n'
    &&& forall|i: int| 0 < i < v.len() && #[trigger] v[i] == 'c' ==> v[i - 1] != '\n'
}

/// Whether `v` closes a line, and adds no line that starts with a `c`.
spec fn closing(v: Seq<char>) -> bool {
    &&& v.len() > 0
    &&& v[0] != 'c'
    &&& v.last() == '\n'
    &&& forall|i: int| 0 < i < v.len() && #[trigger] v[i] == 'c' ==> v[i - 1] != '\n'
}

/// Whether no line of `s` starts with a `c`.
spec fn calm(s: Seq<char>) -> bool {
    adds_no_class(Seq::empty(), s) && whole_lines(s)
}

proof fn lemma_calm(x: Seq<char>, y: Seq<char>)
    requires
        calm(x),
        calm(y),
    ensures
        calm(x + y),
{
    let t = x + y;
    assert forall|i: int| 0 <= i < t.len() && #[trigger] t[i] == 'c' implies i > 0 && t[i - 1]
        != '\n' by {
        if i < x.len() {
            assert(x[i] == 'c');
        } else {
            assert(y[i - x.len()] == 'c');
        }
    }
    if y.len() > 0 {
        assert(t.last() == y.last());
    } else {
        assert(t =~= x);
    }
}

proof fn lemma_mirror_lines(fs: Seq<(Seq<char>, Ty)>, n: nat, types: Seq<Decl>)
    requires
        n <= fs.len(),
        fields_in_lines(fs),
        enums_in_lines(types),
    ensures
        calm(mirror_lines(fs, n, types)),
    decreases n,
{
    if n > 0 {
        let f = fs[n - 1].0;
        let ct = ctypes_field(fs[n - 1].1, types, types.len());
        lemma_ctypes(fs[n - 1].1, types, types.len());
        lemma_mirror_lines(fs, (n - 1) as nat, types);
        reveal_strlit("        ('");
        reveal_strlit("', ");
        reveal_strlit("),\n");
        let v = "        ('"@ + f + "', "@ + ct + "),\n"@;
        assert(calm(v));
        lemma_calm(mirror_lines(fs, (n - 1) as nat, types), v);
    }
}

proof fn lemma_init_lines(fs: Seq<(Seq<char>, Ty)>, n: nat)
    requires
        n <= fs.len(),
        fields_in_lines(fs),
    ensures
        calm(init_lines(fs, n)),
    decreases n,
{
    if n > 0 {
        let f = fs[n - 1].0;
        let d = default_value(fs[n - 1].1);
        lemma_default(fs[n - 1].1);
        lemma_init_lines(fs, (n - 1) as nat);
        reveal_strlit("        self._");
        reveal_strlit(" = ");
        reveal_strlit(" if ");
        reveal_strlit(" is not None else ");
        reveal_strlit("\n");
        let v = "        self._"@ + f + " = "@ + f + " if "@ + f + " is not None else "@ + d
            + "\n"@;
        assert(calm(v));
        lemma_calm(init_lines(fs, (n - 1) as nat), v);
    }
}

proof fn lemma_property_lines(fs: Seq<(Seq<char>, Ty)>, n: nat)
    requires
        n <= fs.len(),
        fields_in_lines(fs),
    ensures
        calm(property_lines(fs, n)),
    decreases n,
{
    if n > 0 {
        let f = fs[n - 1].0;
        lemma_property_lines(fs, (n - 1) as nat);
        reveal_strlit("    @property\n    def ");
        reveal_strlit("(self):\n        return self._");
        reveal_strlit("\n\n");
        let v = "    @property\n    def "@ + f + "(self):\n        return self._"@ + f + "\n\n"@;
        assert(calm(v));
        lemma_calm(property_lines(fs, (n - 1) as nat), v);
    }
}

/// Whether `x` is clear, and its last line open.
#[verifier::opaque]
spec fn going(p: Seq<char>, x: Seq<char>) -> bool {
    clear(p, x) && x.len() > 0 && x.last() != '\n'
}

/// Whether `x` is clear, and its last line closed.
#[verifier::opaque]
spec fn ended(p: Seq<char>, x: Seq<char>) -> bool {
    clear(p, x) && whole_lines(x)
}

proof fn lemma_inline(p: Seq<char>, x: Seq<char>, v: Seq<char>) -> (s: Seq<char>)
    requires
        lacks(p, '\n'),
        going(p, x),
        lacks(v, '\n'),
    ensures
        s == x + v,
        going(p, s),
{
    reveal(going);
    lemma_clear_add(p, x, v);
    if v.len() == 0 {
        assert(x + v =~= x);
    }
    x + v
}

proof fn lemma_steady(p: Seq<char>, x: Seq<char>, v: Seq<char>) -> (s: Seq<char>)
    requires
        lacks(p, '\n'),
        going(p, x) || ended(p, x),
        steady(v),
    ensures
        s == x + v,
        going(p, s),
{
    reveal(going);
    reveal(ended);
    lemma_clear_add(p, x, v);
    x + v
}

proof fn lemma_closing(p: Seq<char>, x: Seq<char>, v: Seq<char>) -> (s: Seq<char>)
    requires
        lacks(p, '\n'),
        going(p, x),
        closing(v),
    ensures
        s == x + v,
        ended(p, s),
{
    reveal(going);
    reveal(ended);
    lemma_clear_add(p, x, v);
    x + v
}

proof fn lemma_calm_lines(p: Seq<char>, x: Seq<char>, v: Seq<char>) -> (s: Seq<char>)
    requires
        lacks(p, '\n'),
        ended(p, x),
        calm(v),
    ensures
        s == x + v,
        ended(p, s),
{
    reveal(ended);
    lemma_clear_add(p, x, v);
    lemma_whole(x, v);
    x + v
}

proof fn lemma_struct_texts()
    ensures
        steady(r#"'_client', '_ptr', '_cbuf')

    def __init__(self, "#@),
        closing(r#"):
        self._client = None
        self._cbuf = None
        self._ptr = 0
"#@),
        steady("        self._cbuf = "@),
        steady("Ctypes("@),
        steady(r#")
        self._ptr = ctypes.addressof(self._cbuf)

    @classmethod
    def _from_ptr(cls, client, ptr):
        buf = "#@),
        steady(r#"Ctypes()
        ctypes.memmove(ctypes.addressof(buf), ptr, ctypes.sizeof(buf))
        obj = cls("#@),
        steady(r#")
        obj._client = client
        obj._ptr = ptr
        return obj

    @classmethod
    def _default(cls):
        return cls("#@),
        closing(")\n\n"@),
        steady("    def __repr__(self):\n        return '"@),
        steady("(' + "@),
        steady(r#" + ')'

    def __eq__(self, other):
        return isinstance(other, "#@),
        steady(") and "@),
        steady(r#"

    def __hash__(self):
        return hash(("#@),
        closing(",))\n\n"@),
{
    reveal_strlit(r#"'_client', '_ptr', '_cbuf')

    def __init__(self, "#);
    reveal_strlit(r#"):
        self._client = None
        self._cbuf = None
        self._ptr = 0
"#);
    reveal_strlit("        self._cbuf = ");
    reveal_strlit("Ctypes(");
    reveal_strlit(r#")
        self._ptr = ctypes.addressof(self._cbuf)

    @classmethod
    def _from_ptr(cls, client, ptr):
        buf = "#);
    reveal_strlit(r#"Ctypes()
        ctypes.memmove(ctypes.addressof(buf), ptr, ctypes.sizeof(buf))
        obj = cls("#);
    reveal_strlit(r#")
        obj._client = client
        obj._ptr = ptr
        return obj

    @classmethod
    def _default(cls):
        return cls("#);
    reveal_strlit(")\n\n");
    reveal_strlit("    def __repr__(self):\n        return '");
    reveal_strlit("(' + ");
    reveal_strlit(r#" + ')'

    def __eq__(self, other):
        return isinstance(other, "#);
    reveal_strlit(") and ");
    reveal_strlit(r#"

    def __hash__(self):
        return hash(("#);
    reveal_strlit(",))\n\n");
}

proof fn lemma_struct_class(name: Seq<char>, s: StructModel, types: Seq<Decl>)
    requires
        is_name(name),
        is_name(s.name),
        fields_in_lines(s.fields),
        enums_in_lines(types),
    ensures
        clear(class_start(name), py_struct_code(s, types)),
        whole_lines(py_struct_code(s, types)),
{
    let p = class_start(name);
    let n = s.name;
    let fs = s.fields;
    let k = fs.len();
    lemma_class_start(name);
    lemma_name(n);
    reveal_strlit(", ");
    reveal_strlit("");
    reveal_strlit(" + ', ' + ");
    reveal_strlit(" and ");
    lemma_mirror_lines(fs, k, types);
    lemma_init_lines(fs, k);
    lemma_property_lines(fs, k);
    let mirror = mirror_lines(fs, k, types);
    let slots = item_list(FieldItem::Slot, fs, k, ", "@);
    let sep = if k == 0 {
        ""@
    } else {
        ", "@
    };
    let params = item_list(FieldItem::Parameter, fs, k, ", "@);
    let inits = init_lines(fs, k);
    let values = item_list(FieldItem::Value, fs, k, ", "@);
    let buffers = item_list(FieldItem::Buffer, fs, k, ", "@);
    let defaults = item_list(FieldItem::Default, fs, k, ", "@);
    let properties = property_lines(fs, k);
    let reprs = item_list(FieldItem::Repr, fs, k, " + ', ' + "@);
    let sames = item_list(FieldItem::Same, fs, k, " and "@);
    lemma_items(FieldItem::Slot, fs, k, ", "@);
    lemma_items(FieldItem::Parameter, fs, k, ", "@);
    lemma_items(FieldItem::Value, fs, k, ", "@);
    lemma_items(FieldItem::Buffer, fs, k, ", "@);
    lemma_items(FieldItem::Default, fs, k, ", "@);
    lemma_items(FieldItem::Repr, fs, k, " + ', ' + "@);
    lemma_items(FieldItem::Same, fs, k, " and "@);
    let t = "class "@ + n + r#"Ctypes(ctypes.Structure):
    _fields_ = [
"#@ + mirror + r#"    ]


class "#@ + n + "(OpaqueHandle):\n    __slots__ = ("@;
    lemma_struct_head(name, n, mirror);
    assert(going(p, t)) by {
        reveal(going);
    }
    lemma_struct_texts();
    let s0 = lemma_inline(p, t, slots);
    let s1 = lemma_inline(p, s0, sep);
    let s2 = lemma_steady(p, s1, r#"'_client', '_ptr', '_cbuf')

    def __init__(self, "#@);
    let s3 = lemma_inline(p, s2, params);
    let s4 = lemma_closing(p, s3, r#"):
        self._client = None
        self._cbuf = None
        self._ptr = 0
"#@);
    let s5 = lemma_calm_lines(p, s4, inits);
    let s6 = lemma_steady(p, s5, "        self._cbuf = "@);
    let s7 = lemma_inline(p, s6, n);
    let s8 = lemma_steady(p, s7, "Ctypes("@);
    let s9 = lemma_inline(p, s8, values);
    let s10 = lemma_steady(p, s9, r#")
        self._ptr = ctypes.addressof(self._cbuf)

    @classmethod
    def _from_ptr(cls, client, ptr):
        buf = "#@);
    let s11 = lemma_inline(p, s10, n);
    let s12 = lemma_steady(p, s11, r#"Ctypes()
        ctypes.memmove(ctypes.addressof(buf), ptr, ctypes.sizeof(buf))
        obj = cls("#@);
    let s13 = lemma_inline(p, s12, buffers);
    let s14 = lemma_steady(p, s13, r#")
        obj._client = client
        obj._ptr = ptr
        return obj

    @classmethod
    def _default(cls):
        return cls("#@);
    let s15 = lemma_inline(p, s14, defaults);
    let s16 = lemma_closing(p, s15, ")\n\n"@);
    let s17 = lemma_calm_lines(p, s16, properties);
    let s18 = lemma_steady(p, s17, "    def __repr__(self):\n        return '"@);
    let s19 = lemma_inline(p, s18, n);
    let s20 = lemma_steady(p, s19, "(' + "@);
    let s21 = lemma_inline(p, s20, reprs);
    let s22 = lemma_steady(p, s21, r#" + ')'

    def __eq__(self, other):
        return isinstance(other, "#@);
    let s23 = lemma_inline(p, s22, n);
    let s24 = lemma_steady(p, s23, ") and "@);
    let s25 = lemma_inline(p, s24, sames);
    let s26 = lemma_steady(p, s25, r#"

    def __hash__(self):
        return hash(("#@);
    let s27 = lemma_inline(p, s26, values);
    let s28 = lemma_closing(p, s27, ",))\n\n"@);
    reveal(ended);
}

proof fn lemma_struct_head(name: Seq<char>, n: Seq<char>, mirror: Seq<char>)
    requires
        is_name(name),
        is_name(n),
        calm(mirror),
    ensures
        ({
            let t = "class "@ + n + r#"Ctypes(ctypes.Structure):
    _fields_ = [
"#@ + mirror + r#"    ]


class "#@ + n + "(OpaqueHandle):\n    __slots__ = ("@;
            clear(class_start(name), t) && t.last() == '('
        }),
{
    let p = class_start(name);
    lemma_name(name);
    lemma_name(n);
    reveal_strlit("class ");
    reveal_strlit("(SpierClient):");
    reveal_strlit("Ctypes");
    reveal_strlit(r#"Ctypes(ctypes.Structure):
    _fields_ = [
"#);
    reveal_strlit(r#"    ]


class "#);
    reveal_strlit("(OpaqueHandle):\n    __slots__ = (");
    reveal_strlit("(ctypes.Structure):\n");
    reveal_strlit("    _fields_ = [\n");
    reveal_strlit("    ]\n\n\n");
    reveal_strlit("(OpaqueHandle):\n");
    reveal_strlit("    __slots__ = (");
    let ct = n + "Ctypes"@;
    let none = Seq::<char>::empty();
    assert(r#"Ctypes(ctypes.Structure):
    _fields_ = [
"#@ =~= "Ctypes"@ + "(ctypes.Structure):\n"@ + "    _fields_ = [\n"@);
    assert(r#"    ]


class "#@ =~= "    ]\n\n\n"@ + "class "@);
    assert("(OpaqueHandle):\n    __slots__ = ("@ =~= "(OpaqueHandle):\n"@ + "    __slots__ = ("@);
    let a = none + ("class "@ + ct + "(ctypes.Structure):\n"@);
    lemma_class_line(name, none, ct, "(ctypes.Structure):\n"@);
    let b = lemma_clear_add(p, a, "    _fields_ = [\n"@);
    let c = lemma_clear_add(p, b, mirror);
    let d = lemma_clear_add(p, c, "    ]\n\n\n"@);
    let e = d + ("class "@ + n + "(OpaqueHandle):\n"@);
    lemma_class_line(name, d, n, "(OpaqueHandle):\n"@);
    let f = lemma_clear_add(p, e, "    __slots__ = ("@);
    let t2 = "class "@ + n + r#"Ctypes(ctypes.Structure):
    _fields_ = [
"#@;
    assert(t2 =~= b);
    assert(t2 + mirror + r#"    ]


class "#@ + n + "(OpaqueHandle):\n    __slots__ = ("@ =~= f);
}

proof fn lemma_enum_head(name: Seq<char>, e: EnumModel)
    requires
        is_name(name),
        is_name(e.name),
    ensures
        clear(class_start(name), py_enum_variants(e, 0)),
        whole_lines(py_enum_variants(e, 0)),
{
    let p = class_start(name);
    let n = e.name;
    lemma_name(name);
    lemma_name(n);
    reveal_strlit("class ");
    reveal_strlit("(SpierClient):");
    reveal_strlit(":\n");
    reveal_strlit(r#":
    __slots__ = ('variant', 'fields')

    def __init__(self, variant, *fields):
        self.variant = variant
        self.fields = fields

    def __eq__(self, other):
        return isinstance(other, "#);
    reveal_strlit(r#"    __slots__ = ('variant', 'fields')

    def __init__(self, variant, *fields):
        self.variant = variant
        self.fields = fields

    def __eq__(self, other):
        return isinstance(other, "#);
    assert(r#":
    __slots__ = ('variant', 'fields')

    def __init__(self, variant, *fields):
        self.variant = variant
        self.fields = fields

    def __eq__(self, other):
        return isinstance(other, "#@ =~= ":\n"@ + r#"    __slots__ = ('variant', 'fields')

    def __init__(self, variant, *fields):
        self.variant = variant
        self.fields = fields

    def __eq__(self, other):
        return isinstance(other, "#@);
    let none = Seq::<char>::empty();
    let a = none + ("class "@ + n + ":\n"@);
    lemma_class_line(name, none, n, ":\n"@);
    lemma_clear_add(p, a, r#"    __slots__ = ('variant', 'fields')

    def __init__(self, variant, *fields):
        self.variant = variant
        self.fields = fields

    def __eq__(self, other):
        return isinstance(other, "#@);
    let t = "class "@ + n + r#":
    __slots__ = ('variant', 'fields')

    def __init__(self, variant, *fields):
        self.variant = variant
        self.fields = fields

    def __eq__(self, other):
        return isinstance(other, "#@;
    assert(t =~= a + r#"    __slots__ = ('variant', 'fields')

    def __init__(self, variant, *fields):
        self.variant = variant
        self.fields = fields

    def __eq__(self, other):
        return isinstance(other, "#@);
    reveal_strlit(r#") and self.variant == other.variant and self.fields == other.fields

    def __hash__(self):
        return hash((self.variant, self.fields))

    def __repr__(self):
        if self.fields:
            inner = ', '.join(repr(f) for f in self.fields)
            return '"#);
    reveal_strlit(".' + self.variant + '(' + inner + ')'\n        return '");
    reveal_strlit(".' + self.variant\n\n");
    let s0 = lemma_clear_add(p, t, n);
    let s1 = lemma_clear_add(p, s0, r#") and self.variant == other.variant and self.fields == other.fields

    def __hash__(self):
        return hash((self.variant, self.fields))

    def __repr__(self):
        if self.fields:
            inner = ', '.join(repr(f) for f in self.fields)
            return '"#@);
    let s2 = lemma_clear_add(p, s1, n);
    let s3 = lemma_clear_add(p, s2, ".' + self.variant + '(' + inner + ')'\n        return '"@);
    let s4 = lemma_clear_add(p, s3, n);
    lemma_clear_add(p, s4, ".' + self.variant\n\n"@);
}

proof fn lemma_arguments(n: nat)
    ensures
        lacks(argument_names(n), '\n'),
    decreases n,
{
    if n > 0 {
        reveal_strlit("_f");
        reveal_strlit(", ");
        lemma_dec((n - 1) as nat);
        lemma_arguments((n - 1) as nat);
    }
}

proof fn lemma_enum_class(name: Seq<char>, e: EnumModel, k: nat)
    requires
        is_name(name),
        is_name(e.name),
        variants_in_lines(e.variants),
        k <= e.variants.len(),
    ensures
        clear(class_start(name), py_enum_variants(e, k)),
        whole_lines(py_enum_variants(e, k)),
    decreases k,
{
    if k == 0 {
        lemma_enum_head(name, e);
    } else {
        let vn = e.variants[k - 1].name;
        let fs = e.variants[k - 1].fields;
        let args = argument_names(fs.len());
        lemma_arguments(fs.len());
        lemma_enum_class(name, e, (k - 1) as nat);
        lemma_name(name);
        reveal_strlit("class ");
        reveal_strlit("(SpierClient):");
        reveal_strlit("    @classmethod\n    def ");
        reveal_strlit("(cls):\n        return cls('");
        reveal_strlit("')\n\n");
        reveal_strlit("(cls, ");
        reveal_strlit("):\n        return cls('");
        reveal_strlit("', ");
        reveal_strlit(")\n\n");
        let x = py_enum_variants(e, (k - 1) as nat);
        if fs.len() == 0 {
            let v = "    @classmethod\n    def "@ + vn + "(cls):\n        return cls('"@ + vn
                + "')\n\n"@;
            assert(calm(v));
            lemma_clear_add(class_start(name), x, v);
            assert((x + v).last() == v.last());
        } else {
            let v = "    @classmethod\n    def "@ + vn + "(cls, "@ + args
                + "):\n        return cls('"@ + vn + "', "@ + args + ")\n\n"@;
            assert(calm(v));
            lemma_clear_add(class_start(name), x, v);
            assert((x + v).last() == v.last());
        }
    }
}

proof fn lemma_decl_lines(name: Seq<char>, d: Decl, types: Seq<Decl>)
    requires
        is_name(name),
        lawful_decl(d),
        d matches Decl::Enum(e) ==> enum_in_lines(e),
        enums_in_lines(types),
    ensures
        clear(class_start(name), py_decl_code(d, types)),
        whole_lines(py_decl_code(d, types)),
{
    match d {
        Decl::Struct(s) => if s.fields.len() == 0 {
            lemma_opaque_class(name, s.name);
        } else {
            assert forall|i: int| 0 <= i < s.fields.len() implies lacks(
                (#[trigger] s.fields[i]).0,
                '\n',
            ) && names_lack(s.fields[i].1, '\n') by {
                lemma_name(s.fields[i].0);
                lemma_lawful_names(s.fields[i].1, true);
            }
            lemma_struct_class(name, s, types);
        },
        Decl::Opaque(o) => lemma_opaque_class(name, o),
        Decl::Enum(e) => {
            let v = py_enum_variants(e, e.variants.len());
            lemma_class_start(name);
            reveal_strlit("\n");
            lemma_enum_class(name, e, e.variants.len());
            lemma_clear_add(class_start(name), v, "\n"@);
        },
    }
}

proof fn lemma_class_start(name: Seq<char>)
    requires
        is_name(name),
    ensures
        lacks(class_start(name), '\n'),
        class_start(name).len() > 4,
        class_start(name)[0] == 'c',
{
    lemma_name(name);
    reveal_strlit("class ");
    reveal_strlit("(SpierClient):");
}

proof fn lemma_types_lines(name: Seq<char>, types: Seq<Decl>, n: nat)
    requires
        is_name(name),
        lawful_decls(types),
        n <= types.len(),
    ensures
        whole_lines(py_types_code(types, n)),
        lines_with(class_start(name), py_types_code(types, n)) == 0,
    decreases n,
{
    let p = class_start(name);
    lemma_class_start(name);
    if n == 0 {
        reveal_strlit("# --- Types ---\n\n");
        lemma_clear_add(p, Seq::empty(), "# --- Types ---\n\n"@);
        assert(Seq::<char>::empty() + "# --- Types ---\n\n"@ =~= "# --- Types ---\n\n"@);
        lemma_clear_lines(p, "# --- Types ---\n\n"@);
    } else {
        let d = types[n - 1];
        let x = py_types_code(types, (n - 1) as nat);
        let y = py_decl_code(d, types);
        lemma_types_lines(name, types, (n - 1) as nat);
        lemma_lawful_enums(types);
        lemma_decl_lines(name, d, types);
        lemma_clear_lines(p, y);
        lemma_lines_add_up(p, x, y);
        if y.len() > 0 {
            assert((x + y).last() == y.last());
        } else {
            assert(x + y =~= x);
        }
    }
}

proof fn lemma_opaque_class(name: Seq<char>, n: Seq<char>)
    requires
        is_name(name),
        is_name(n),
    ensures
        clear(class_start(name), "class "@ + n + "(OpaqueHandle):\n    pass\n\n\n"@),
        whole_lines("class "@ + n + "(OpaqueHandle):\n    pass\n\n\n"@),
{
    let p = class_start(name);
    lemma_name(name);
    lemma_name(n);
    reveal_strlit("class ");
    reveal_strlit("(SpierClient):");
    reveal_strlit("(OpaqueHandle):\n    pass\n\n\n");
    reveal_strlit("(OpaqueHandle):\n");
    reveal_strlit("    pass\n\n\n");
    assert("(OpaqueHandle):\n    pass\n\n\n"@ =~= "(OpaqueHandle):\n"@ + "    pass\n\n\n"@);
    let none = Seq::<char>::empty();
    let a = none + ("class "@ + n + "(OpaqueHandle):\n"@);
    lemma_class_line(name, none, n, "(OpaqueHandle):\n"@);
    lemma_clear_add(p, a, "    pass\n\n\n"@);
    assert("class "@ + n + "(OpaqueHandle):\n    pass\n\n\n"@ =~= a + "    pass\n\n\n"@);
}

// ---------------------------------------------------------------------------
// The module
// ---------------------------------------------------------------------------

proof fn lemma_hex(n: nat, width: nat)
    ensures
        lacks(hex(n, width), '\n'),
    decreases width,
{
    if width > 0 {
        lemma_hex(n / 16, (width - 1) as nat);
    }
}

proof fn lemma_closed(p: Seq<char>, x: Seq<char>, n: nat)
    requires
        p.len() > 0,
        lacks(p, '\n'),
        n <= x.len(),
    ensures
        lines_before(p, x.push('\n'), n) == lines_before(p, x, n),
        lines_with(p, x.push('\n')) == lines_before(p, x.push('\n'), x.len()),
    decreases n,
{
    let s = x.push('\n');
    lemma_stands(p, s, x.len() as int);
    if stands_at(p, s, x.len() as int) {
        assert(s[x.len() as int + 0] == p[0]);
    }
    if n > 0 {
        lemma_closed(p, x, (n - 1) as nat);
        let i = n - 1;
        lemma_stands(p, s, i);
        lemma_stands(p, x, i);
        if stands_at(p, s, i) && i + p.len() > x.len() {
            assert(s[i + (x.len() - i)] == p[x.len() - i]);
        }
    }
}

proof fn lemma_module_head(name: Seq<char>, runtime: Seq<char>, hash: u64)
    requires
        is_name(name),
    ensures
        ({
            let s = r#"# Auto-generated by dynspire-codegen. Do not edit.
from __future__ import annotations

"#@ + runtime + r#"

_IDL_HASH = 0x"#@ + hex16(hash) + "\n\n\n"@;
            &&& whole_lines(s)
            &&& lines_with(class_start(name), s) == lines_with(class_start(name), runtime)
        }),
{
    let p = class_start(name);
    lemma_class_start(name);
    lemma_hex(hash as nat, 16);
    reveal_strlit(r#"# Auto-generated by dynspire-codegen. Do not edit.
from __future__ import annotations

"#);
    reveal_strlit(r#"

_IDL_HASH = 0x"#);
    reveal_strlit("\n\n\n");
    reveal_strlit("\n");
    reveal_strlit("\n_IDL_HASH = 0x");
    let none = Seq::<char>::empty();
    let a = r#"# Auto-generated by dynspire-codegen. Do not edit.
from __future__ import annotations

"#@;
    let b = runtime.push('\n');
    let c = "\n_IDL_HASH = 0x"@ + hex16(hash) + "\n\n\n"@;
    lemma_clear_add(p, none, a);
    assert(none + a =~= a);
    lemma_clear_lines(p, a);
    lemma_closed(p, runtime, runtime.len());
    lemma_clear_add(p, none, c);
    assert(none + c =~= c);
    lemma_clear_lines(p, c);
    lemma_lines_add_up(p, a, b);
    lemma_lines_add_up(p, a + b, c);
    assert(a + b + c =~= r#"# Auto-generated by dynspire-codegen. Do not edit.
from __future__ import annotations

"#@ + runtime + r#"

_IDL_HASH = 0x"#@ + hex16(hash) + "\n\n\n"@);
}

/// In the Python module of an interface one line opens the client class, beside
/// those that the runtime itself may hold.
pub proof fn module_has_one_client_class(iface: InterfaceModel)
    requires
        lawful_interface(iface),
        forall|j: int| 0 <= j < iface.methods.len() ==> named_params(#[trigger] iface.methods[j]),
    ensures
        lines_with(class_start(iface.name), python_code(iface)) == lines_with(
            class_start(iface.name),
            PY_RUNTIME@,
        ) + 1,
{
    let p = class_start(iface.name);
    let hash = idl_hash(iface);
    let runtime = PY_RUNTIME@;
    let head = r#"# Auto-generated by dynspire-codegen. Do not edit.
from __future__ import annotations

"#@ + runtime + r#"

_IDL_HASH = 0x"#@ + hex16(hash) + "\n\n\n"@;
    let types = py_types_code(iface.types, iface.types.len());
    let client = py_client_code(iface);
    lemma_class_start(iface.name);
    lemma_module_head(iface.name, runtime, hash);
    lemma_types_lines(iface.name, iface.types, iface.types.len());
    client_lines_stand_once(iface, 0);
    lemma_client_whole(iface);
    reveal_strlit("\n");
    lemma_clear_add(p, Seq::empty(), "\n"@);
    assert(Seq::<char>::empty() + "\n"@ =~= "\n"@);
    lemma_clear_lines(p, "\n"@);
    lemma_lines_add_up(p, head, types);
    lemma_whole(head, types);
    lemma_lines_add_up(p, head + types, client);
    lemma_whole(head + types, client);
    lemma_lines_add_up(p, head + types + client, "\n"@);
}

proof fn lemma_whole(x: Seq<char>, y: Seq<char>)
    requires
        whole_lines(x),
        whole_lines(y),
    ensures
        whole_lines(x + y),
{
    if y.len() > 0 {
        assert((x + y).last() == y.last());
    } else {
        assert(x + y =~= x);
    }
}

proof fn lemma_client_whole(iface: InterfaceModel)
    requires
        lawful_interface(iface),
        forall|j: int| 0 <= j < iface.methods.len() ==> named_params(#[trigger] iface.methods[j]),
    ensures
        whole_lines(py_client_code(iface)),
{
    lemma_head(iface, iface.name);
    lemma_method_lines(iface, iface.name, iface.methods.len());
    let methods = py_methods_code(iface, iface.methods.len());
    lemma_whole(py_client_head(iface), methods);
    assert(py_client_code(iface) =~= py_client_head(iface) + methods);
}

} // verus!
