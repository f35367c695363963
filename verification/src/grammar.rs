//! What holds of every interface that parses.
use vstd::prelude::*;

use crate::ast::{idl_hash, Decl, InterfaceModel, MethodModel, ParamModel, Ty, VariantModel};
use crate::codec::{
    all_code, any_dynamic, codes, decl_dynamic, enum_codes, field_dynamic, find_from,
    flat_fields, variant_fields,
};
use crate::gen::{generatable, method_codes};
use crate::lexer::{
    ends_with_eof, is_name, names_are_names, tokens, tokens_end_with_eof, tokens_hold_names,
    ErrorModel, Tok, TokenModel,
};
use crate::parser::{
    after_name, array, borrow, decl_names, directives, enum_variants, fields_name, first_undeclared,
    fragment_decls, fragment_model, generic, interface, items, left, mentions, method, method_names,
    method_params, named_type, names, names_in, paren, parse_model, past, struct_fields, tuple_rest,
    ty, type_decl, validation_finds_undeclared, variant, variant_types, Parsed,
};

verus! {

/// Whether a name is one that the grammar gives a meaning as a type.
pub open spec fn is_builtin(name: Seq<char>) -> bool {
    ||| named_type(name) != Ty::Named(name)
    ||| name == "DVec"@
    ||| name == "DOption"@
    ||| name == "DSlice"@
    ||| name == "String"@
    ||| name == "Vec"@
    ||| name == "Option"@
    ||| name == "str"@
}

/// Whether a type obeys the grammar: tuples have 2 to 8 elements, array lengths
/// are positive multiples of 8 that fit into a `usize`, `&mut` stands before a
/// managed vector alone,
/// native strings, vectors and options stand by value only where `native`
/// allows them, and a declared type has an identifier for a name, and none that
/// means another type.
pub open spec fn lawful(t: Ty, native: bool) -> bool
    decreases t, 0nat,
{
    match t {
        Ty::Tuple(ts) => 2 <= ts.len() <= 8 && all_lawful(ts, ts.len(), native),
        Ty::Array(t, n) => 0 < n <= usize::MAX && n % 8 == 0 && lawful(*t, native),
        Ty::String => native,
        Ty::Vec(t) => native && lawful(*t, native),
        Ty::Option(t) => native && lawful(*t, native),
        Ty::DVec(t) => lawful(*t, native),
        Ty::DOption(t) => lawful(*t, native),
        Ty::DSlice(t) => lawful(*t, native),
        Ty::Ref(t) => lawful(*t, native),
        Ty::RefMut(t) => *t is DVec && lawful(*t, true),
        Ty::Named(name) => is_name(name) && !is_builtin(name),
        _ => true,
    }
}

/// Whether the first `n` of `ts` obey the grammar.
pub open spec fn all_lawful(ts: Seq<Ty>, n: nat, native: bool) -> bool
    decreases ts, n,
{
    n == 0 || n > ts.len() || (lawful(ts[n - 1], native) && all_lawful(ts, (n - 1) as nat, native))
}

/// Whether a variant obeys the grammar.
pub open spec fn lawful_variant(v: VariantModel) -> bool {
    &&& is_name(v.name)
    &&& forall|i: int| 0 <= i < v.fields.len() ==> lawful(#[trigger] v.fields[i], true)
}

/// Whether the fields of a struct obey the grammar.
pub open spec fn lawful_fields(fs: Seq<(Seq<char>, Ty)>) -> bool {
    forall|i: int| 0 <= i < fs.len() ==> is_name((#[trigger] fs[i]).0) && lawful(fs[i].1, true)
}

/// Whether a declaration obeys the grammar.
pub open spec fn lawful_decl(d: Decl) -> bool {
    match d {
        Decl::Struct(s) => is_name(s.name) && lawful_fields(s.fields),
        Decl::Enum(e) => is_name(e.name) && forall|i: int|
            0 <= i < e.variants.len() ==> lawful_variant(#[trigger] e.variants[i]),
        Decl::Opaque(name) => is_name(name),
    }
}

/// Whether a method obeys the grammar.
pub open spec fn lawful_method(m: MethodModel) -> bool {
    &&& forall|i: int| 0 <= i < m.params.len() ==> lawful((#[trigger] m.params[i]).ty, false)
    &&& lawful(m.return_type, true)
    &&& is_name(m.name)
}

/// Whether the parameters of a method are named by identifiers.
pub open spec fn named_params(m: MethodModel) -> bool {
    forall|i: int| 0 <= i < m.params.len() ==> is_name((#[trigger] m.params[i]).name)
}

/// Whether all of a list of declarations obey the grammar.
pub open spec fn lawful_decls(ds: Seq<Decl>) -> bool {
    forall|i: int| 0 <= i < ds.len() ==> lawful_decl(#[trigger] ds[i])
}

/// Whether an interface obeys the grammar: all of its parts do, and it has a
/// method.
pub open spec fn lawful_interface(iface: InterfaceModel) -> bool {
    &&& is_name(iface.name)
    &&& iface.methods.len() > 0
    &&& lawful_decls(iface.types)
    &&& forall|i: int| 0 <= i < iface.methods.len() ==> lawful_method(#[trigger] iface.methods[i])
}

proof fn lemma_all_lawful(ts: Seq<Ty>, n: nat, native: bool)
    requires
        n <= ts.len(),
        forall|i: int| 0 <= i < ts.len() ==> lawful(#[trigger] ts[i], native),
    ensures
        all_lawful(ts, n, native),
    decreases n,
{
    if n > 0 {
        lemma_all_lawful(ts, (n - 1) as nat, native);
    }
}

/// What the lemmas below need of a token list.
spec fn well(ts: Seq<TokenModel>) -> bool {
    names_are_names(ts) && ends_with_eof(ts)
}

proof fn lemma_next(ts: Seq<TokenModel>, p: nat)
    requires
        well(ts),
        p < ts.len(),
    ensures
        ts[p as int].kind matches Tok::Ident(s) ==> is_name(s),
        ts[p as int].kind !is Eof ==> p + 1 < ts.len(),
{
    if p + 1 >= ts.len() {
        assert(ts[p as int] == ts.last());
    }
}

proof fn lemma_generic(ts: Seq<TokenModel>, p: nat, native: bool)
    requires
        well(ts),
    ensures
        generic(ts, p, native) matches Ok((t, _)) ==> lawful(t, native),
    decreases left(ts, p), 1nat,
{
    if p < ts.len() {
        lemma_ty(ts, p + 1, native);
    }
}

proof fn lemma_after_name(ts: Seq<TokenModel>, name: Seq<char>, p: nat, native: bool)
    requires
        well(ts),
        is_name(name),
    ensures
        after_name(ts, name, p, native) matches Ok((t, _)) ==> lawful(t, native),
    decreases left(ts, p), 2nat,
{
    lemma_generic(ts, p, native);
}

proof fn lemma_borrow(ts: Seq<TokenModel>, p: nat, native: bool)
    requires
        well(ts),
    ensures
        borrow(ts, p, native) matches Ok((t, _)) ==> lawful(t, native),
    decreases left(ts, p), 5nat,
{
    if p < ts.len() {
        lemma_ty(ts, p + 1, true);
        lemma_ty(ts, p, native);
    }
}

proof fn lemma_tuple_rest(ts: Seq<TokenModel>, p: nat, native: bool, elems: Seq<Ty>)
    requires
        well(ts),
        forall|i: int| 0 <= i < elems.len() ==> lawful(#[trigger] elems[i], native),
    ensures
        tuple_rest(ts, p, native, elems) matches Ok((v, _)) ==> forall|i: int|
            0 <= i < v.len() ==> lawful(#[trigger] v[i], native),
    decreases left(ts, p), 1nat,
{
    if p < ts.len() {
        lemma_ty(ts, p + 1, native);
        if let Ok((t, r)) = ty(ts, p + 1, native) {
            lemma_tuple_rest(ts, past(p, r), native, elems.push(t));
        }
    }
}

proof fn lemma_paren(ts: Seq<TokenModel>, p: nat, native: bool)
    requires
        well(ts),
    ensures
        paren(ts, p, native) matches Ok((t, _)) ==> lawful(t, native),
    decreases left(ts, p), 3nat,
{
    if p < ts.len() {
        lemma_ty(ts, p + 1, native);
        if let Ok((first, r)) = ty(ts, p + 1, native) {
            lemma_tuple_rest(ts, past(p, r), native, seq![first]);
            if let Ok((elems, _)) = tuple_rest(ts, past(p, r), native, seq![first]) {
                lemma_all_lawful(elems, elems.len(), native);
            }
        }
    }
}

proof fn lemma_array(ts: Seq<TokenModel>, p: nat, native: bool)
    requires
        well(ts),
    ensures
        array(ts, p, native) matches Ok((t, _)) ==> lawful(t, native),
    decreases left(ts, p), 3nat,
{
    if p < ts.len() {
        lemma_ty(ts, p + 1, native);
    }
}

proof fn lemma_ty(ts: Seq<TokenModel>, p: nat, native: bool)
    requires
        well(ts),
    ensures
        ty(ts, p, native) matches Ok((t, _)) ==> lawful(t, native),
    decreases left(ts, p), 4nat,
{
    if p < ts.len() {
        lemma_borrow(ts, p + 1, native);
        lemma_paren(ts, p, native);
        lemma_array(ts, p, native);
        if let Tok::Ident(name) = ts[p as int].kind {
            lemma_after_name(ts, name, p + 1, native);
        }
    }
}

proof fn lemma_struct_fields(ts: Seq<TokenModel>, p: nat, acc: Seq<(Seq<char>, Ty)>)
    requires
        well(ts),
        lawful_fields(acc),
    ensures
        struct_fields(ts, p, acc) matches Ok((v, _)) ==> lawful_fields(v),
    decreases left(ts, p),
{
    if p < ts.len() {
        lemma_ty(ts, p + 2, true);
        if let Tok::Ident(name) = ts[p as int].kind {
            if let Ok((t, s)) = ty(ts, p + 2, true) {
                lemma_struct_fields(ts, past(p, s + 1), acc.push((name, t)));
            }
        }
    }
}

proof fn lemma_variant_types(ts: Seq<TokenModel>, p: nat, acc: Seq<Ty>)
    requires
        well(ts),
        forall|i: int| 0 <= i < acc.len() ==> lawful(#[trigger] acc[i], true),
    ensures
        variant_types(ts, p, acc) matches Ok((v, _)) ==> forall|i: int|
            0 <= i < v.len() ==> lawful(#[trigger] v[i], true),
    decreases left(ts, p),
{
    if p < ts.len() {
        lemma_ty(ts, p, true);
        if let Ok((t, q)) = ty(ts, p, true) {
            lemma_variant_types(ts, past(p, q + 1), acc.push(t));
        }
    }
}

proof fn lemma_enum_variants(ts: Seq<TokenModel>, p: nat, acc: Seq<VariantModel>)
    requires
        well(ts),
        forall|i: int| 0 <= i < acc.len() ==> lawful_variant(#[trigger] acc[i]),
    ensures
        enum_variants(ts, p, acc) matches Ok((v, _)) ==> forall|i: int|
            0 <= i < v.len() ==> lawful_variant(#[trigger] v[i]),
    decreases left(ts, p),
{
    if p < ts.len() {
        lemma_variant_types(ts, p + 2, Seq::empty());
        if let Ok((v, q)) = variant(ts, p) {
            assert(lawful_variant(v));
            lemma_enum_variants(ts, past(p, q + 1), acc.push(v));
        }
    }
}

proof fn lemma_type_decl(ts: Seq<TokenModel>, p: nat)
    requires
        well(ts),
        p < ts.len(),
    ensures
        type_decl(ts, p) matches Some(Ok((d, _))) ==> lawful_decl(d),
{
    lemma_next(ts, p);
    if p + 1 < ts.len() {
        lemma_next(ts, p + 1);
    }
    if p + 2 < ts.len() {
        lemma_next(ts, p + 2);
    }
    lemma_struct_fields(ts, p + 3, Seq::empty());
    lemma_enum_variants(ts, p + 3, Seq::empty());
}

proof fn lemma_method_params(ts: Seq<TokenModel>, p: nat, acc: Seq<ParamModel>)
    requires
        well(ts),
        forall|i: int|
            0 <= i < acc.len() ==> lawful((#[trigger] acc[i]).ty, false) && is_name(acc[i].name),
    ensures
        method_params(ts, p, acc) matches Ok((v, _)) ==> forall|i: int|
            0 <= i < v.len() ==> lawful((#[trigger] v[i]).ty, false) && is_name(v[i].name),
    decreases left(ts, p),
{
    if p < ts.len() {
        lemma_ty(ts, p + 2, false);
        if let Tok::Ident(name) = ts[p as int].kind {
            if let Ok((t, s)) = ty(ts, p + 2, false) {
                lemma_method_params(ts, past(p, s + 1), acc.push(ParamModel { name, ty: t }));
            }
        }
    }
}

proof fn lemma_method(ts: Seq<TokenModel>, p: nat)
    requires
        well(ts),
        p < ts.len(),
    ensures
        method(ts, p) matches Ok((m, _)) ==> lawful_method(m) && named_params(m),
{
    lemma_next(ts, p);
    if p + 1 < ts.len() {
        lemma_next(ts, p + 1);
    }
    lemma_method_params(ts, p + 3, Seq::empty());
    if let Ok((_, u)) = method_params(ts, p + 3, Seq::empty()) {
        lemma_ty(ts, u + 1, true);
    }
}

proof fn lemma_items(
    ts: Seq<TokenModel>,
    p: nat,
    types: Seq<Decl>,
    methods: Seq<MethodModel>,
)
    requires
        well(ts),
        lawful_decls(types),
        forall|i: int|
            0 <= i < methods.len() ==> lawful_method(#[trigger] methods[i]) && named_params(
                methods[i],
            ),
    ensures
        items(ts, p, types, methods) matches Ok(((ds, ms), _)) ==> lawful_decls(ds) && forall|
            i: int,
        |
            0 <= i < ms.len() ==> lawful_method(#[trigger] ms[i]) && named_params(ms[i]),
    decreases left(ts, p),
{
    if p < ts.len() {
        lemma_method(ts, p);
        if let Ok((m, q)) = method(ts, p) {
            lemma_items(ts, past(p, q), types, methods.push(m));
        }
        lemma_type_decl(ts, p);
        if let Some(Ok((d, q))) = type_decl(ts, p) {
            lemma_items(ts, past(p, q), types.push(d), methods);
        }
    }
}

proof fn lemma_fragment_decls(ts: Seq<TokenModel>, p: nat, acc: Seq<Decl>)
    requires
        well(ts),
        lawful_decls(acc),
    ensures
        fragment_decls(ts, p, acc) matches Ok(ds) ==> lawful_decls(ds),
    decreases left(ts, p),
{
    if p < ts.len() {
        lemma_type_decl(ts, p);
        if let Some(Ok((d, q))) = type_decl(ts, p) {
            lemma_fragment_decls(ts, past(p, q), acc.push(d));
        }
    }
}

/// Every interface that parses obeys the grammar, and the parameters of its
/// methods are named by identifiers.
pub proof fn parsed_interfaces_are_lawful(src: Seq<u8>)
    ensures
        parse_model(src) matches Ok(iface) ==> lawful_interface(iface),
        parse_model(src) matches Ok(iface) ==> forall|i: int|
            0 <= i < iface.methods.len() ==> named_params(#[trigger] iface.methods[i]),
{
    tokens_hold_names(src);
    tokens_end_with_eof(src);
    if let Ok(ts) = tokens(src) {
        layout_directives(ts, ts, 0, Seq::empty());
        if let Ok((includes, p)) = directives(ts, 0, Seq::empty()) {
            lemma_next(ts, p);
            if p + 1 < ts.len() {
                lemma_next(ts, p + 1);
            }
            lemma_items(ts, p + 3, Seq::empty(), Seq::empty());
            if let Ok((iface, _)) = interface(ts, p, includes) {
                assert(lawful_interface(iface));
            }
        }
    }
}

/// Every declaration of a fragment that parses obeys the grammar.
pub proof fn parsed_fragments_are_lawful(src: Seq<u8>)
    ensures
        fragment_model(src) matches Ok((types, _)) ==> lawful_decls(types),
{
    tokens_hold_names(src);
    tokens_end_with_eof(src);
    if let Ok(ts) = tokens(src) {
        if let Ok((_, p)) = directives(ts, 0, Seq::empty()) {
            lemma_fragment_decls(ts, p, Seq::empty());
        }
    }
}

// ---------------------------------------------------------------------------
// Layout
// ---------------------------------------------------------------------------

/// Whether two token lists hold the same tokens, wherever these stand.
pub open spec fn same_kinds(a: Seq<TokenModel>, b: Seq<TokenModel>) -> bool {
    &&& a.len() == b.len()
    &&& forall|i: int| 0 <= i < a.len() ==> (#[trigger] a[i]).kind == b[i].kind
}

/// Whether two results are the same but for what an error says.
pub open spec fn agree<T>(x: Result<T, ErrorModel>, y: Result<T, ErrorModel>) -> bool {
    match (x, y) {
        (Ok(v), Ok(w)) => v == w,
        (Err(_), Err(_)) => true,
        _ => false,
    }
}

/// Whether a parse from `p` that succeeds ends behind `p`, among the tokens.
pub open spec fn moves_on<T>(ts: Seq<TokenModel>, p: nat, r: Parsed<T>) -> bool {
    r matches Ok((_, q)) ==> p < q < ts.len()
}

/// What the lemmas below need of two token lists.
spec fn pair(a: Seq<TokenModel>, b: Seq<TokenModel>) -> bool {
    ends_with_eof(a) && same_kinds(a, b)
}

proof fn lemma_step(a: Seq<TokenModel>, b: Seq<TokenModel>, p: nat)
    requires
        pair(a, b),
        p < a.len(),
    ensures
        a[p as int].kind == b[p as int].kind,
        a[p as int].kind !is Eof ==> p + 1 < a.len(),
{
    assert(a[p as int].kind == b[p as int].kind);
    if p + 1 >= a.len() {
        assert(a[p as int] == a.last());
    }
}

proof fn layout_generic(a: Seq<TokenModel>, b: Seq<TokenModel>, p: nat, native: bool)
    requires
        pair(a, b),
        p < a.len(),
    ensures
        agree(generic(a, p, native), generic(b, p, native)),
        moves_on(a, p, generic(a, p, native)),
    decreases left(a, p), 1nat,
{
    lemma_step(a, b, p);
    if a[p as int].kind is Lt {
        layout_ty(a, b, p + 1, native);
        if let Ok((_, r)) = ty(a, p + 1, native) {
            lemma_step(a, b, r);
        }
    }
}

proof fn layout_after_name(
    a: Seq<TokenModel>,
    b: Seq<TokenModel>,
    name: Seq<char>,
    p: nat,
    native: bool,
)
    requires
        pair(a, b),
        p < a.len(),
    ensures
        agree(after_name(a, name, p, native), after_name(b, name, p, native)),
        after_name(a, name, p, native) matches Ok((_, q)) ==> p <= q < a.len(),
    decreases left(a, p), 2nat,
{
    layout_generic(a, b, p, native);
}

proof fn layout_borrow(a: Seq<TokenModel>, b: Seq<TokenModel>, p: nat, native: bool)
    requires
        pair(a, b),
        p < a.len(),
    ensures
        agree(borrow(a, p, native), borrow(b, p, native)),
        moves_on(a, p, borrow(a, p, native)),
    decreases left(a, p), 5nat,
{
    lemma_step(a, b, p);
    if a[p as int].kind is Mut {
        layout_ty(a, b, p + 1, true);
    } else {
        if p + 1 < a.len() {
            lemma_step(a, b, p + 1);
        }
        if p + 2 < a.len() {
            lemma_step(a, b, p + 2);
        }
        layout_ty(a, b, p, native);
    }
}

proof fn layout_tuple_rest(
    a: Seq<TokenModel>,
    b: Seq<TokenModel>,
    p: nat,
    native: bool,
    elems: Seq<Ty>,
)
    requires
        pair(a, b),
        p < a.len(),
    ensures
        agree(tuple_rest(a, p, native, elems), tuple_rest(b, p, native, elems)),
        moves_on(a, p, tuple_rest(a, p, native, elems)),
    decreases left(a, p), 1nat,
{
    lemma_step(a, b, p);
    if a[p as int].kind is Comma {
        lemma_step(a, b, p + 1);
        layout_ty(a, b, p + 1, native);
        if let Ok((t, r)) = ty(a, p + 1, native) {
            lemma_step(a, b, r);
            layout_tuple_rest(a, b, past(p, r), native, elems.push(t));
        }
    }
}

proof fn layout_paren(a: Seq<TokenModel>, b: Seq<TokenModel>, p: nat, native: bool)
    requires
        pair(a, b),
        p < a.len(),
    ensures
        agree(paren(a, p, native), paren(b, p, native)),
        moves_on(a, p, paren(a, p, native)),
    decreases left(a, p), 3nat,
{
    lemma_step(a, b, p);
    if a[p as int].kind is LParen {
        lemma_step(a, b, p + 1);
        layout_ty(a, b, p + 1, native);
        if let Ok((first, r)) = ty(a, p + 1, native) {
            lemma_step(a, b, r);
            layout_tuple_rest(a, b, past(p, r), native, seq![first]);
        }
    }
}

proof fn layout_array(a: Seq<TokenModel>, b: Seq<TokenModel>, p: nat, native: bool)
    requires
        pair(a, b),
        p < a.len(),
    ensures
        agree(array(a, p, native), array(b, p, native)),
        moves_on(a, p, array(a, p, native)),
    decreases left(a, p), 3nat,
{
    lemma_step(a, b, p);
    if a[p as int].kind is LBracket {
        layout_ty(a, b, p + 1, native);
        if let Ok((_, r)) = ty(a, p + 1, native) {
            lemma_step(a, b, r);
            if a[r as int].kind is Semicolon {
                lemma_step(a, b, r + 1);
                if a[(r + 1) as int].kind is Int {
                    lemma_step(a, b, r + 2);
                }
            }
        }
    }
}

proof fn layout_ty(a: Seq<TokenModel>, b: Seq<TokenModel>, p: nat, native: bool)
    requires
        pair(a, b),
        p < a.len(),
    ensures
        agree(ty(a, p, native), ty(b, p, native)),
        moves_on(a, p, ty(a, p, native)),
    decreases left(a, p), 4nat,
{
    lemma_step(a, b, p);
    match a[p as int].kind {
        Tok::Amp => layout_borrow(a, b, p + 1, native),
        Tok::LParen => layout_paren(a, b, p, native),
        Tok::LBracket => layout_array(a, b, p, native),
        Tok::Ident(name) => layout_after_name(a, b, name, p + 1, native),
        _ => {},
    }
}

proof fn layout_struct_fields(
    a: Seq<TokenModel>,
    b: Seq<TokenModel>,
    p: nat,
    acc: Seq<(Seq<char>, Ty)>,
)
    requires
        pair(a, b),
        p < a.len(),
    ensures
        agree(struct_fields(a, p, acc), struct_fields(b, p, acc)),
        moves_on(a, p, struct_fields(a, p, acc)),
    decreases left(a, p),
{
    lemma_step(a, b, p);
    if let Tok::Ident(name) = a[p as int].kind {
        lemma_step(a, b, p + 1);
        if a[(p + 1) as int].kind is Colon {
            layout_ty(a, b, p + 2, true);
            if let Ok((t, s)) = ty(a, p + 2, true) {
                lemma_step(a, b, s);
                if a[s as int].kind is Comma {
                    layout_struct_fields(a, b, past(p, s + 1), acc.push((name, t)));
                }
            }
        }
    }
}

proof fn layout_variant_types(
    a: Seq<TokenModel>,
    b: Seq<TokenModel>,
    p: nat,
    acc: Seq<Ty>,
)
    requires
        pair(a, b),
        p < a.len(),
    ensures
        agree(variant_types(a, p, acc), variant_types(b, p, acc)),
        moves_on(a, p, variant_types(a, p, acc)),
    decreases left(a, p),
{
    lemma_step(a, b, p);
    layout_ty(a, b, p, true);
    if let Ok((t, q)) = ty(a, p, true) {
        lemma_step(a, b, q);
        if a[q as int].kind is Comma {
            layout_variant_types(a, b, past(p, q + 1), acc.push(t));
        }
    }
}

proof fn layout_variant(a: Seq<TokenModel>, b: Seq<TokenModel>, p: nat)
    requires
        pair(a, b),
        p < a.len(),
    ensures
        agree(variant(a, p), variant(b, p)),
        moves_on(a, p, variant(a, p)),
{
    lemma_step(a, b, p);
    if a[p as int].kind is Ident {
        lemma_step(a, b, p + 1);
        if a[(p + 1) as int].kind is LParen {
            layout_variant_types(a, b, p + 2, Seq::empty());
        }
    }
}

proof fn layout_enum_variants(
    a: Seq<TokenModel>,
    b: Seq<TokenModel>,
    p: nat,
    acc: Seq<VariantModel>,
)
    requires
        pair(a, b),
        p < a.len(),
    ensures
        agree(enum_variants(a, p, acc), enum_variants(b, p, acc)),
        moves_on(a, p, enum_variants(a, p, acc)),
    decreases left(a, p),
{
    lemma_step(a, b, p);
    layout_variant(a, b, p);
    if let Ok((v, q)) = variant(a, p) {
        lemma_step(a, b, q);
        if a[q as int].kind is Comma {
            layout_enum_variants(a, b, past(p, q + 1), acc.push(v));
        }
    }
}

proof fn layout_decl(a: Seq<TokenModel>, b: Seq<TokenModel>, p: nat)
    requires
        pair(a, b),
        p < a.len(),
    ensures
        type_decl(a, p) is Some <==> type_decl(b, p) is Some,
        type_decl(a, p) is Some ==> agree(type_decl(a, p)->Some_0, type_decl(b, p)->Some_0)
            && moves_on(a, p, type_decl(a, p)->Some_0),
{
    lemma_step(a, b, p);
    if p + 1 < a.len() {
        lemma_step(a, b, p + 1);
    }
    if p + 2 < a.len() {
        lemma_step(a, b, p + 2);
    }
    if p + 3 < a.len() {
        lemma_step(a, b, p + 3);
        layout_struct_fields(a, b, p + 3, Seq::empty());
        layout_enum_variants(a, b, p + 3, Seq::empty());
    }
}

proof fn layout_method_params(
    a: Seq<TokenModel>,
    b: Seq<TokenModel>,
    p: nat,
    acc: Seq<ParamModel>,
)
    requires
        pair(a, b),
        p < a.len(),
    ensures
        agree(method_params(a, p, acc), method_params(b, p, acc)),
        moves_on(a, p, method_params(a, p, acc)),
    decreases left(a, p),
{
    lemma_step(a, b, p);
    if let Tok::Ident(name) = a[p as int].kind {
        lemma_step(a, b, p + 1);
        if a[(p + 1) as int].kind is Colon {
            layout_ty(a, b, p + 2, false);
            if let Ok((t, s)) = ty(a, p + 2, false) {
                lemma_step(a, b, s);
                if a[s as int].kind is Comma {
                    layout_method_params(
                        a,
                        b,
                        past(p, s + 1),
                        acc.push(ParamModel { name, ty: t }),
                    );
                }
            }
        }
    }
}

proof fn layout_method(a: Seq<TokenModel>, b: Seq<TokenModel>, p: nat)
    requires
        pair(a, b),
        p < a.len(),
    ensures
        agree(method(a, p), method(b, p)),
        moves_on(a, p, method(a, p)),
{
    lemma_step(a, b, p);
    if a[p as int].kind is Fn {
        lemma_step(a, b, p + 1);
        if a[(p + 1) as int].kind is Ident {
            lemma_step(a, b, p + 2);
            if a[(p + 2) as int].kind is LParen {
                layout_method_params(a, b, p + 3, Seq::empty());
                if let Ok((_, u)) = method_params(a, p + 3, Seq::empty()) {
                    lemma_step(a, b, u);
                    if a[u as int].kind is Arrow {
                        layout_ty(a, b, u + 1, true);
                        if let Ok((_, w)) = ty(a, u + 1, true) {
                            lemma_step(a, b, w);
                        }
                    }
                }
            }
        }
    }
}

proof fn layout_items(
    a: Seq<TokenModel>,
    b: Seq<TokenModel>,
    p: nat,
    types: Seq<Decl>,
    methods: Seq<MethodModel>,
)
    requires
        pair(a, b),
        p < a.len(),
    ensures
        agree(items(a, p, types, methods), items(b, p, types, methods)),
        moves_on(a, p, items(a, p, types, methods)),
    decreases left(a, p),
{
    lemma_step(a, b, p);
    if a[p as int].kind is Fn {
        layout_method(a, b, p);
        if let Ok((m, q)) = method(a, p) {
            layout_items(a, b, past(p, q), types, methods.push(m));
        }
    } else {
        layout_decl(a, b, p);
        if let Some(Ok((d, q))) = type_decl(a, p) {
            layout_items(a, b, past(p, q), types.push(d), methods);
        }
    }
}

proof fn layout_directives(
    a: Seq<TokenModel>,
    b: Seq<TokenModel>,
    p: nat,
    acc: Seq<Seq<char>>,
)
    requires
        pair(a, b),
        p < a.len(),
    ensures
        agree(directives(a, p, acc), directives(b, p, acc)),
        directives(a, p, acc) matches Ok((_, q)) ==> p <= q < a.len(),
    decreases left(a, p),
{
    lemma_step(a, b, p);
    if a[p as int].kind is Include {
        lemma_step(a, b, p + 1);
        if let Tok::Str(s) = a[(p + 1) as int].kind {
            lemma_step(a, b, p + 2);
            if a[(p + 2) as int].kind is Semicolon {
                layout_directives(a, b, p + 3, acc.push(s));
            }
        }
    }
}

proof fn layout_interface(a: Seq<TokenModel>, b: Seq<TokenModel>, p: nat, includes: Seq<Seq<char>>)
    requires
        pair(a, b),
        p < a.len(),
    ensures
        agree(interface(a, p, includes), interface(b, p, includes)),
        moves_on(a, p, interface(a, p, includes)),
{
    lemma_step(a, b, p);
    if a[p as int].kind is Interface {
        lemma_step(a, b, p + 1);
        if a[(p + 1) as int].kind is Ident {
            lemma_step(a, b, p + 2);
            if a[(p + 2) as int].kind is LBrace {
                layout_items(a, b, p + 3, Seq::empty(), Seq::empty());
            }
        }
    }
}

/// Blanks, line ends and comments do not matter: two sources with the same
/// tokens both fail, or spell the same interface, with the same hash.
pub proof fn layout_does_not_matter(
    a: Seq<u8>,
    b: Seq<u8>,
    ta: Seq<TokenModel>,
    tb: Seq<TokenModel>,
)
    requires
        tokens(a) == Ok::<Seq<TokenModel>, ErrorModel>(ta),
        tokens(b) == Ok::<Seq<TokenModel>, ErrorModel>(tb),
        same_kinds(ta, tb),
    ensures
        agree(parse_model(a), parse_model(b)),
        parse_model(a) matches Ok(iface) ==> idl_hash(iface) == idl_hash(parse_model(b)->Ok_0),
{
    tokens_end_with_eof(a);
    layout_directives(ta, tb, 0, Seq::empty());
    if let Ok((includes, p)) = directives(ta, 0, Seq::empty()) {
        layout_interface(ta, tb, p, includes);
        if let Ok((_, q)) = interface(ta, p, includes) {
            lemma_step(ta, tb, q);
        }
    }
}

/// Every type that is parsed takes at least one token and leaves at least the
/// end of the file.
pub proof fn types_take_tokens(ts: Seq<TokenModel>, p: nat, native: bool)
    requires
        ends_with_eof(ts),
        p < ts.len(),
    ensures
        moves_on(ts, p, ty(ts, p, native)),
{
    layout_ty(ts, ts, p, native);
}

// ---------------------------------------------------------------------------
// What can be generated
// ---------------------------------------------------------------------------

/// The position of the first declaration of `name`, from `i` on.
pub open spec fn position_from(types: Seq<Decl>, name: Seq<char>, i: nat) -> Option<nat>
    decreases types.len() - i,
{
    if i >= types.len() {
        None
    } else if types[i as int].name() == name {
        Some(i)
    } else {
        position_from(types, name, i + 1)
    }
}

/// Whether `name` is declared among the first `d` declarations.
pub open spec fn declared_before(types: Seq<Decl>, name: Seq<char>, d: nat) -> bool {
    position_from(types, name, 0) matches Some(j) && j < d
}

/// Whether every declaration mentions only types that are declared before it.
pub open spec fn refers_back(types: Seq<Decl>) -> bool {
    forall|i: int, name: Seq<char>|
        0 <= i < types.len() && #[trigger] decl_names(types[i], name) ==> declared_before(
            types,
            name,
            i as nat,
        )
}

/// Whether `t` mentions only the first `d` declarations.
spec fn known(t: Ty, types: Seq<Decl>, d: nat) -> bool {
    forall|name: Seq<char>| #[trigger] names(t, name) ==> declared_before(types, name, d)
}

proof fn lemma_position(types: Seq<Decl>, name: Seq<char>, i: nat)
    ensures
        match position_from(types, name, i) {
            Some(j) => i <= j < types.len() && find_from(types, name, i) == Some(types[j as int]),
            None => find_from(types, name, i) is None,
        },
    decreases types.len() - i,
{
    if i < types.len() && types[i as int].name() != name {
        lemma_position(types, name, i + 1);
    }
}

proof fn lemma_dtype_names(t: Ty, name: Seq<char>)
    ensures
        names(t.field_dtype(), name) ==> names(t, name),
    decreases t,
{
    match t {
        Ty::Vec(inner) => lemma_dtype_names(*inner, name),
        Ty::DVec(inner) => lemma_dtype_names(*inner, name),
        Ty::Option(inner) => lemma_dtype_names(*inner, name),
        Ty::DOption(inner) => lemma_dtype_names(*inner, name),
        Ty::U8Slice => {
            reveal_with_fuel(names, 2);
        },
        _ => {},
    }
}

proof fn lemma_names_in(ts: Seq<Ty>, n: nat, i: int, name: Seq<char>)
    requires
        0 < n <= ts.len(),
        ts.len() - n <= i < ts.len(),
        names(ts[i], name),
    ensures
        names_in(ts, n, name),
    decreases n,
{
    if i > ts.len() - n {
        lemma_names_in(ts, (n - 1) as nat, i, name);
    }
}

proof fn lemma_codes(t: Ty, types: Seq<Decl>, d: nat)
    requires
        refers_back(types),
        known(t, types, d),
    ensures
        codes(t, types, d),
    decreases d, t, 0nat,
{
    match t {
        Ty::Option(inner) => {
            assert(known(*inner, types, d)) by {
                assert forall|name: Seq<char>| #[trigger]
                    names(*inner, name) implies declared_before(types, name, d) by {
                    assert(names(t, name));
                }
            }
            lemma_codes(*inner, types, d);
        },
        Ty::DOption(inner) => {
            assert(known(*inner, types, d)) by {
                assert forall|name: Seq<char>| #[trigger]
                    names(*inner, name) implies declared_before(types, name, d) by {
                    assert(names(t, name));
                }
            }
            lemma_codes(*inner, types, d);
        },
        Ty::Ref(inner) => {
            assert(known(*inner, types, d)) by {
                assert forall|name: Seq<char>| #[trigger]
                    names(*inner, name) implies declared_before(types, name, d) by {
                    assert(names(t, name));
                }
            }
            lemma_codes(*inner, types, d);
        },
        Ty::Array(inner, _) => {
            assert(known(*inner, types, d)) by {
                assert forall|name: Seq<char>| #[trigger]
                    names(*inner, name) implies declared_before(types, name, d) by {
                    assert(names(t, name));
                }
            }
            lemma_codes(*inner, types, d);
        },
        Ty::Tuple(ts) => {
            assert forall|i: int| 0 <= i < ts.len() implies known(#[trigger] ts[i], types, d) by {
                assert forall|name: Seq<char>| #[trigger]
                    names(ts[i], name) implies declared_before(types, name, d) by {
                    lemma_names_in(ts, ts.len(), i, name);
                    assert(names(t, name));
                }
            }
            lemma_all_code(ts, ts.len(), types, d);
        },
        Ty::Named(name) => {
            assert(names(t, name));
            lemma_position(types, name, 0);
            let j = position_from(types, name, 0)->Some_0;
            if let Decl::Enum(e) = types[j as int] {
                assert forall|a: int, b: int|
                    0 <= a < e.variants.len() && 0 <= b < e.variants[a].fields.len() implies codes(
                    (#[trigger] e.variants[a].fields[b]).field_dtype(),
                    types,
                    (d - 1) as nat,
                ) by {
                    let f = e.variants[a].fields[b];
                    assert(known(f.field_dtype(), types, (d - 1) as nat)) by {
                        assert forall|n: Seq<char>| #[trigger]
                            names(f.field_dtype(), n) implies declared_before(
                            types,
                            n,
                            (d - 1) as nat,
                        ) by {
                            lemma_dtype_names(f, n);
                            assert(fields_name(e.variants[a].fields, n));
                            assert(decl_names(types[j as int], n));
                        }
                    }
                    lemma_codes(f.field_dtype(), types, (d - 1) as nat);
                }
                assert(enum_codes(e, types, (d - 1) as nat));
            }
        },
        _ => {},
    }
}

proof fn lemma_all_code(ts: Seq<Ty>, n: nat, types: Seq<Decl>, d: nat)
    requires
        refers_back(types),
        n <= ts.len(),
        forall|i: int| 0 <= i < ts.len() ==> known(#[trigger] ts[i], types, d),
    ensures
        all_code(ts, n, types, d),
    decreases d, ts, n,
{
    if n > 0 {
        lemma_codes(ts[ts.len() - n], types, d);
        lemma_all_code(ts, (n - 1) as nat, types, d);
    }
}

proof fn lemma_variant_names(vs: Seq<VariantModel>, n: nat, k: int, name: Seq<char>)
    requires
        n <= vs.len(),
        0 <= k < variant_fields(vs, n).len(),
        names(variant_fields(vs, n)[k], name),
    ensures
        exists|i: int| 0 <= i < n && fields_name((#[trigger] vs[i]).fields, name),
    decreases n,
{
    let before = variant_fields(vs, (n - 1) as nat);
    if k < before.len() {
        lemma_variant_names(vs, (n - 1) as nat, k, name);
    } else {
        assert(vs[n - 1].fields[k - before.len()] == variant_fields(vs, n)[k]);
        assert(fields_name(vs[n - 1].fields, name));
    }
}

proof fn lemma_fields_known(types: Seq<Decl>, j: int, d: nat)
    requires
        refers_back(types),
        0 <= j < types.len(),
        j <= d,
    ensures
        forall|k: int|
            0 <= k < flat_fields(types[j]).len() ==> known(
                #[trigger] flat_fields(types[j])[k],
                types,
                d,
            ),
{
    let fs = flat_fields(types[j]);
    assert forall|k: int| 0 <= k < fs.len() implies known(#[trigger] fs[k], types, d) by {
        assert forall|name: Seq<char>| #[trigger] names(fs[k], name) implies declared_before(
            types,
            name,
            d,
        ) by {
            match types[j] {
                Decl::Struct(s) => {
                    assert(names(s.fields[k].1, name));
                },
                Decl::Enum(e) => {
                    lemma_variant_names(e.variants, e.variants.len(), k, name);
                },
                Decl::Opaque(_) => {},
            }
            assert(decl_names(types[j], name));
        }
    }
}

proof fn lemma_dynamic(t: Ty, types: Seq<Decl>, d: nat)
    requires
        refers_back(types),
        known(t, types, d),
    ensures
        field_dynamic(t, types, d) is Some,
    decreases d, t, 0nat,
{
    match t {
        Ty::DOption(inner) => {
            assert(known(*inner, types, d)) by {
                assert forall|name: Seq<char>| #[trigger]
                    names(*inner, name) implies declared_before(types, name, d) by {
                    assert(names(t, name));
                }
            }
            lemma_dynamic(*inner, types, d);
        },
        Ty::Option(inner) => {
            assert(known(*inner, types, d)) by {
                assert forall|name: Seq<char>| #[trigger]
                    names(*inner, name) implies declared_before(types, name, d) by {
                    assert(names(t, name));
                }
            }
            lemma_dynamic(*inner, types, d);
        },
        Ty::Named(name) => {
            assert(names(t, name));
            lemma_position(types, name, 0);
            let j = position_from(types, name, 0)->Some_0;
            lemma_fields_known(types, j as int, (d - 1) as nat);
            let fs = flat_fields(types[j as int]);
            lemma_any_dynamic(fs, fs.len(), types, (d - 1) as nat);
        },
        _ => {},
    }
}

proof fn lemma_any_dynamic(fs: Seq<Ty>, n: nat, types: Seq<Decl>, d: nat)
    requires
        refers_back(types),
        n <= fs.len(),
        forall|k: int| 0 <= k < fs.len() ==> known(#[trigger] fs[k], types, d),
    ensures
        any_dynamic(fs, n, types, d) is Some,
    decreases d, fs, n,
{
    if n > 0 {
        lemma_dynamic(fs[fs.len() - n], types, d);
        lemma_any_dynamic(fs, (n - 1) as nat, types, d);
    }
}

/// Code can be generated for every interface that is valid and in which each
/// declaration mentions only earlier ones.
pub proof fn ordered_interfaces_can_be_generated(iface: InterfaceModel)
    requires
        first_undeclared(iface) is None,
        refers_back(iface.types),
    ensures
        generatable(iface),
{
    let types = iface.types;
    validation_finds_undeclared(iface);
    assert forall|i: int| 0 <= i < types.len() implies decl_dynamic(#[trigger] types[i], types)
        is Some by {
        lemma_fields_known(types, i, types.len());
        let fs = flat_fields(types[i]);
        lemma_any_dynamic(fs, fs.len(), types, types.len());
    }
    assert forall|i: int| 0 <= i < iface.methods.len() implies method_codes(
        #[trigger] iface.methods[i],
        types,
    ) by {
        let m = iface.methods[i];
        assert(known(m.return_type, types, types.len())) by {
            assert forall|name: Seq<char>| #[trigger]
                names(m.return_type, name) implies declared_before(types, name, types.len()) by {
                assert(method_names(m, name));
                assert(mentions(iface, name));
                lemma_position(types, name, 0);
            }
        }
        lemma_codes(m.return_type, types, types.len());
        assert forall|j: int| 0 <= j < m.params.len() implies codes(
            (#[trigger] m.params[j]).ty,
            types,
            types.len(),
        ) by {
            assert(known(m.params[j].ty, types, types.len())) by {
                assert forall|name: Seq<char>| #[trigger]
                    names(m.params[j].ty, name) implies declared_before(types, name, types.len()) by {
                    assert(method_names(m, name));
                    assert(mentions(iface, name));
                    lemma_position(types, name, 0);
                }
            }
            lemma_codes(m.params[j].ty, types, types.len());
        }
    }
}

} // verus!
