//! A fragment says the same by itself and inside an interface.
use vstd::prelude::*;

use crate::ast::{Decl, InterfaceModel, MethodModel, ParamModel, Ty, VariantModel};
use crate::canonical::{
    ascii, lemma_empty_text, lemma_keywords, lemma_kinds_stand, lemma_letter, lemma_marks,
    lemma_no_comment, lemma_spaced, lemma_split, lemma_then, spells, stands_at,
};
use crate::grammar::moves_on;
use crate::lexer::{ends_with_eof, tokens, tokens_end_with_eof, ErrorModel, Tok, TokenModel};
use crate::parser::{
    after_name, array, borrow, directives, enum_variants, fragment_decls, fragment_model, generic,
    interface, items, left, method, method_params, paren, parse_model, past, struct_fields,
    tuple_rest, ty, type_decl, variant, variant_types, Parsed,
};
use crate::spelling::{kinds, kinds_of, separate_texts_join, tokens_are_of_these_kinds};

verus! {

/// Whether the tokens of `a`, without the end of the file, stand in `b` from
/// position `d` on, and a method follows.
spec fn fits(a: Seq<TokenModel>, b: Seq<TokenModel>, d: nat) -> bool {
    &&& ends_with_eof(a)
    &&& b.len() >= a.len() + d
    &&& forall|i: int| 0 <= i < a.len() - 1 ==> (#[trigger] a[i]).kind == b[i + d].kind
    &&& b[a.len() - 1 + d].kind is Fn
}

/// Whether what was parsed in one place is parsed `d` further on as well.
spec fn carried<T>(x: Parsed<T>, y: Parsed<T>, d: nat) -> bool {
    x matches Ok((v, q)) ==> y == Ok::<(T, nat), ErrorModel>((v, q + d))
}

proof fn carry_step(a: Seq<TokenModel>, b: Seq<TokenModel>, d: nat, p: nat)
    requires
        fits(a, b, d),
        p < a.len(),
    ensures
        p + d < b.len(),
        a[p as int].kind !is Eof ==> a[p as int].kind == b[(p + d) as int].kind && p + 1 < a.len(),
        a[p as int].kind is Eof ==> b[(p + d) as int].kind is Fn,
{
    if p + 1 >= a.len() {
        assert(a[p as int] == a.last());
    } else {
        assert(a[p as int].kind == b[p + d as int].kind);
    }
}

proof fn carry_generic(a: Seq<TokenModel>, b: Seq<TokenModel>, d: nat, p: nat, native: bool)
    requires
        fits(a, b, d),
        p < a.len(),
    ensures
        carried(generic(a, p, native), generic(b, p + d, native), d),
        moves_on(a, p, generic(a, p, native)),
    decreases left(a, p), 1nat,
{
    carry_step(a, b, d, p);
    if a[p as int].kind is Lt {
        carry_ty(a, b, d, p + 1, native);
        if let Ok((_, r)) = ty(a, p + 1, native) {
            carry_step(a, b, d, r);
        }
    }
}

proof fn carry_after_name(
    a: Seq<TokenModel>,
    b: Seq<TokenModel>,
    d: nat,
    name: Seq<char>,
    p: nat,
    native: bool,
)
    requires
        fits(a, b, d),
        p < a.len(),
    ensures
        carried(after_name(a, name, p, native), after_name(b, name, p + d, native), d),
        after_name(a, name, p, native) matches Ok((_, q)) ==> p <= q < a.len(),
    decreases left(a, p), 2nat,
{
    carry_generic(a, b, d, p, native);
}

proof fn carry_borrow(a: Seq<TokenModel>, b: Seq<TokenModel>, d: nat, p: nat, native: bool)
    requires
        fits(a, b, d),
        p < a.len(),
    ensures
        carried(borrow(a, p, native), borrow(b, p + d, native), d),
        moves_on(a, p, borrow(a, p, native)),
    decreases left(a, p), 5nat,
{
    carry_step(a, b, d, p);
    if a[p as int].kind is Mut {
        carry_ty(a, b, d, p + 1, true);
    } else {
        if p + 1 < a.len() {
            carry_step(a, b, d, p + 1);
        }
        if p + 2 < a.len() {
            carry_step(a, b, d, p + 2);
        }
        carry_ty(a, b, d, p, native);
    }
}

proof fn carry_tuple_rest(
    a: Seq<TokenModel>,
    b: Seq<TokenModel>,
    d: nat,
    p: nat,
    native: bool,
    elems: Seq<Ty>,
)
    requires
        fits(a, b, d),
        p < a.len(),
    ensures
        carried(tuple_rest(a, p, native, elems), tuple_rest(b, p + d, native, elems), d),
        moves_on(a, p, tuple_rest(a, p, native, elems)),
    decreases left(a, p), 1nat,
{
    carry_step(a, b, d, p);
    if a[p as int].kind is Comma {
        carry_step(a, b, d, p + 1);
        carry_ty(a, b, d, p + 1, native);
        if let Ok((t, r)) = ty(a, p + 1, native) {
            carry_step(a, b, d, r);
            carry_tuple_rest(a, b, d, past(p, r), native, elems.push(t));
        }
    }
}

proof fn carry_paren(a: Seq<TokenModel>, b: Seq<TokenModel>, d: nat, p: nat, native: bool)
    requires
        fits(a, b, d),
        p < a.len(),
    ensures
        carried(paren(a, p, native), paren(b, p + d, native), d),
        moves_on(a, p, paren(a, p, native)),
    decreases left(a, p), 3nat,
{
    carry_step(a, b, d, p);
    if a[p as int].kind is LParen {
        carry_step(a, b, d, p + 1);
        carry_ty(a, b, d, p + 1, native);
        if let Ok((first, r)) = ty(a, p + 1, native) {
            carry_step(a, b, d, r);
            carry_tuple_rest(a, b, d, past(p, r), native, seq![first]);
        }
    }
}

proof fn carry_array(a: Seq<TokenModel>, b: Seq<TokenModel>, d: nat, p: nat, native: bool)
    requires
        fits(a, b, d),
        p < a.len(),
    ensures
        carried(array(a, p, native), array(b, p + d, native), d),
        moves_on(a, p, array(a, p, native)),
    decreases left(a, p), 3nat,
{
    carry_step(a, b, d, p);
    if a[p as int].kind is LBracket {
        carry_ty(a, b, d, p + 1, native);
        if let Ok((_, r)) = ty(a, p + 1, native) {
            carry_step(a, b, d, r);
            if a[r as int].kind is Semicolon {
                carry_step(a, b, d, r + 1);
                if a[(r + 1) as int].kind is Int {
                    carry_step(a, b, d, r + 2);
                }
            }
        }
    }
}

proof fn carry_ty(a: Seq<TokenModel>, b: Seq<TokenModel>, d: nat, p: nat, native: bool)
    requires
        fits(a, b, d),
        p < a.len(),
    ensures
        carried(ty(a, p, native), ty(b, p + d, native), d),
        moves_on(a, p, ty(a, p, native)),
    decreases left(a, p), 4nat,
{
    carry_step(a, b, d, p);
    match a[p as int].kind {
        Tok::Amp => carry_borrow(a, b, d, p + 1, native),
        Tok::LParen => carry_paren(a, b, d, p, native),
        Tok::LBracket => carry_array(a, b, d, p, native),
        Tok::Ident(name) => carry_after_name(a, b, d, name, p + 1, native),
        _ => {},
    }
}

proof fn carry_struct_fields(
    a: Seq<TokenModel>,
    b: Seq<TokenModel>,
    d: nat,
    p: nat,
    acc: Seq<(Seq<char>, Ty)>,
)
    requires
        fits(a, b, d),
        p < a.len(),
    ensures
        carried(struct_fields(a, p, acc), struct_fields(b, p + d, acc), d),
        moves_on(a, p, struct_fields(a, p, acc)),
    decreases left(a, p),
{
    carry_step(a, b, d, p);
    if let Tok::Ident(name) = a[p as int].kind {
        carry_step(a, b, d, p + 1);
        if a[(p + 1) as int].kind is Colon {
            carry_ty(a, b, d, p + 2, true);
            if let Ok((t, s)) = ty(a, p + 2, true) {
                carry_step(a, b, d, s);
                if a[s as int].kind is Comma {
                    carry_struct_fields(a, b, d, past(p, s + 1), acc.push((name, t)));
                }
            }
        }
    }
}

proof fn carry_variant_types(
    a: Seq<TokenModel>,
    b: Seq<TokenModel>,
    d: nat,
    p: nat,
    acc: Seq<Ty>,
)
    requires
        fits(a, b, d),
        p < a.len(),
    ensures
        carried(variant_types(a, p, acc), variant_types(b, p + d, acc), d),
        moves_on(a, p, variant_types(a, p, acc)),
    decreases left(a, p),
{
    carry_step(a, b, d, p);
    carry_ty(a, b, d, p, true);
    if let Ok((t, q)) = ty(a, p, true) {
        carry_step(a, b, d, q);
        if a[q as int].kind is Comma {
            carry_variant_types(a, b, d, past(p, q + 1), acc.push(t));
        }
    }
}

proof fn carry_variant(a: Seq<TokenModel>, b: Seq<TokenModel>, d: nat, p: nat)
    requires
        fits(a, b, d),
        p < a.len(),
    ensures
        carried(variant(a, p), variant(b, p + d), d),
        moves_on(a, p, variant(a, p)),
{
    carry_step(a, b, d, p);
    if a[p as int].kind is Ident {
        carry_step(a, b, d, p + 1);
        if a[(p + 1) as int].kind is LParen {
            carry_variant_types(a, b, d, p + 2, Seq::empty());
        }
    }
}

proof fn carry_enum_variants(
    a: Seq<TokenModel>,
    b: Seq<TokenModel>,
    d: nat,
    p: nat,
    acc: Seq<VariantModel>,
)
    requires
        fits(a, b, d),
        p < a.len(),
    ensures
        carried(enum_variants(a, p, acc), enum_variants(b, p + d, acc), d),
        moves_on(a, p, enum_variants(a, p, acc)),
    decreases left(a, p),
{
    carry_step(a, b, d, p);
    carry_variant(a, b, d, p);
    if let Ok((v, q)) = variant(a, p) {
        carry_step(a, b, d, q);
        if a[q as int].kind is Comma {
            carry_enum_variants(a, b, d, past(p, q + 1), acc.push(v));
        }
    }
}

proof fn carry_decl(a: Seq<TokenModel>, b: Seq<TokenModel>, d: nat, p: nat)
    requires
        fits(a, b, d),
        p < a.len(),
    ensures
        type_decl(a, p) is Some <==> type_decl(b, p + d) is Some,
        type_decl(a, p) is Some ==> carried(type_decl(a, p)->Some_0, type_decl(b, p + d)->Some_0, d)
            && moves_on(a, p, type_decl(a, p)->Some_0),
{
    carry_step(a, b, d, p);
    if p + 1 < a.len() {
        carry_step(a, b, d, p + 1);
    }
    if p + 2 < a.len() {
        carry_step(a, b, d, p + 2);
    }
    if p + 3 < a.len() {
        carry_step(a, b, d, p + 3);
        carry_struct_fields(a, b, d, p + 3, Seq::empty());
        carry_enum_variants(a, b, d, p + 3, Seq::empty());
    }
}

proof fn carry_fragment(a: Seq<TokenModel>, b: Seq<TokenModel>, d: nat, p: nat, acc: Seq<Decl>)
    requires
        fits(a, b, d),
        p < a.len(),
    ensures
        fragment_decls(a, p, acc) matches Ok(ds) ==> items(b, p + d, acc, Seq::empty()) == items(
            b,
            (a.len() - 1 + d) as nat,
            ds,
            Seq::empty(),
        ),
    decreases left(a, p),
{
    carry_step(a, b, d, p);
    if a[p as int].kind is Eof {
        if p + 1 < a.len() {
            assert(a[p as int].kind !is Eof);
        }
    } else if a[p as int].kind !is Fn {
        carry_decl(a, b, d, p);
        if let Some(Ok((t, q))) = type_decl(a, p) {
            carry_fragment(a, b, d, past(p, q), acc.push(t));
            if fragment_decls(a, p, acc) is Ok {
                assert(b[(p + d) as int].kind !is RBrace);
                assert(items(b, p + d, acc, Seq::empty()) == items(
                    b,
                    past(p, q) + d,
                    acc.push(t),
                    Seq::empty(),
                ));
            }
        }
    }
}

proof fn lemma_directives_grow(ts: Seq<TokenModel>, p: nat, acc: Seq<Seq<char>>)
    ensures
        directives(ts, p, acc) matches Ok((v, q)) ==> v.len() >= acc.len() && (v.len() == acc.len()
            ==> v == acc && q == p),
    decreases left(ts, p),
{
    if p < ts.len() && ts[p as int].kind is Include {
        if let Tok::Str(s) = ts[(p + 1) as int].kind {
            lemma_directives_grow(ts, p + 3, acc.push(s));
        }
    }
}

/// What stands before the fragment.
pub open spec fn before_fragment() -> Seq<u8> {
    ascii("interface I { "@)
}

/// What stands behind the fragment.
pub open spec fn behind_fragment() -> Seq<u8> {
    ascii("\nfn z() -> (); }"@)
}

spec fn head_toks() -> Seq<Tok> {
    seq![Tok::Interface, Tok::Ident(seq!['I']), Tok::LBrace]
}

spec fn tail_toks() -> Seq<Tok> {
    seq![
        Tok::Fn,
        Tok::Ident(seq!['z']),
        Tok::LParen,
        Tok::RParen,
        Tok::Arrow,
        Tok::LParen,
        Tok::RParen,
        Tok::Semicolon,
        Tok::RBrace,
    ]
}

proof fn lemma_before()
    ensures
        spells("interface I { "@, head_toks()),
{
    lemma_keywords();
    lemma_marks();
    lemma_letter('I');
    lemma_empty_text();
    reveal_strlit("interface");
    let e = Seq::<char>::empty();
    let k0 = Seq::<Tok>::empty();
    lemma_spaced(e, k0, "interface"@, Tok::Interface);
    let a1 = e + "interface"@ + seq![' '];
    let k1 = k0.push(Tok::Interface);
    lemma_spaced(a1, k1, seq!['I'], Tok::Ident(seq!['I']));
    let a2 = a1 + seq!['I'] + seq![' '];
    let k2 = k1.push(Tok::Ident(seq!['I']));
    lemma_spaced(a2, k2, seq!['{'], Tok::LBrace);
    let a3 = a2 + seq!['{'] + seq![' '];
    let k3 = k2.push(Tok::LBrace);
    reveal_strlit("interface I { ");
    assert("interface I { "@ =~= a3);
    assert(k3 =~= head_toks());
}

proof fn lemma_line_end()
    ensures
        spells(seq!['\n'], Seq::empty()),
{
    let b = ascii(seq!['\n']);
    assert(b =~= seq![10u8]);
    assert(b.skip(1) =~= Seq::empty());
    assert(kinds(b.skip(1)) == Some(Seq::<Tok>::empty()));
}

proof fn lemma_behind()
    ensures
        spells("\nfn z() -> (); }"@, tail_toks()),
{
    lemma_keywords();
    lemma_marks();
    lemma_line_end();
    lemma_letter('z');
    reveal_strlit("fn");
    let a0 = seq!['\n'];
    let k0 = Seq::<Tok>::empty();
    lemma_spaced(a0, k0, "fn"@, Tok::Fn);
    let a1 = a0 + "fn"@ + seq![' '];
    let k1 = k0.push(Tok::Fn);
    lemma_then(a1, k1, seq!['z'], seq![Tok::Ident(seq!['z'])]);
    let a2 = a1 + seq!['z'];
    let k2 = k1 + seq![Tok::Ident(seq!['z'])];
    lemma_then(a2, k2, seq!['('], seq![Tok::LParen]);
    let a3 = a2 + seq!['('];
    let k3 = k2 + seq![Tok::LParen];
    lemma_spaced(a3, k3, seq![')'], Tok::RParen);
    let a4 = a3 + seq![')'] + seq![' '];
    let k4 = k3.push(Tok::RParen);
    lemma_spaced(a4, k4, seq!['-', '>'], Tok::Arrow);
    let a5 = a4 + seq!['-', '>'] + seq![' '];
    let k5 = k4.push(Tok::Arrow);
    lemma_then(a5, k5, seq!['('], seq![Tok::LParen]);
    let a6 = a5 + seq!['('];
    let k6 = k5 + seq![Tok::LParen];
    lemma_then(a6, k6, seq![')'], seq![Tok::RParen]);
    let a7 = a6 + seq![')'];
    let k7 = k6 + seq![Tok::RParen];
    lemma_spaced(a7, k7, seq![';'], Tok::Semicolon);
    let a8 = a7 + seq![';'] + seq![' '];
    let k8 = k7.push(Tok::Semicolon);
    lemma_then(a8, k8, seq!['}'], seq![Tok::RBrace]);
    reveal_strlit("\nfn z() -> (); }");
    assert("\nfn z() -> (); }"@ =~= a8 + seq!['}']);
    assert(k8 + seq![Tok::RBrace] =~= tail_toks());
}

/// An interface with these declarations and the method `z`.
pub open spec fn around(types: Seq<Decl>) -> InterfaceModel {
    InterfaceModel {
        name: seq!['I'],
        includes: Seq::empty(),
        types,
        methods: seq![
            MethodModel { name: seq!['z'], params: Seq::empty(), return_type: Ty::Unit },
        ],
    }
}

proof fn lemma_tail(ts: Seq<TokenModel>, p: nat, types: Seq<Decl>)
    requires
        stands_at(ts, p, tail_toks() + seq![Tok::Eof]),
    ensures
        items(ts, p, types, Seq::empty()) == Ok::<((Seq<Decl>, Seq<MethodModel>), nat), ErrorModel>(
            ((types, around(types).methods), p + 9),
        ),
        p + 9 < ts.len(),
        ts[(p + 9) as int].kind is Eof,
{
    let k = tail_toks() + seq![Tok::Eof];
    assert(ts[(p + 0) as int].kind == k[0]);
    assert(ts[(p + 1) as int].kind == k[1]);
    assert(ts[(p + 2) as int].kind == k[2]);
    assert(ts[(p + 3) as int].kind == k[3]);
    assert(ts[(p + 4) as int].kind == k[4]);
    assert(ts[(p + 5) as int].kind == k[5]);
    assert(ts[(p + 6) as int].kind == k[6]);
    assert(ts[(p + 7) as int].kind == k[7]);
    assert(ts[(p + 8) as int].kind == k[8]);
    assert(ts[(p + 9) as int].kind == k[9]);
    let m = MethodModel { name: seq!['z'], params: Seq::empty(), return_type: Ty::Unit };
    assert(method_params(ts, p + 3, Seq::empty()) == Ok::<(Seq<ParamModel>, nat), ErrorModel>(
        (Seq::empty(), p + 4),
    ));
    assert(ty(ts, p + 5, true) == Ok::<(Ty, nat), ErrorModel>((Ty::Unit, p + 7)));
    assert(method(ts, p) == Ok::<(MethodModel, nat), ErrorModel>((m, p + 8)));
    let ms = Seq::<MethodModel>::empty().push(m);
    assert(ms =~= around(types).methods);
    assert(items(ts, p + 8, types, ms) == Ok::<((Seq<Decl>, Seq<MethodModel>), nat), ErrorModel>(
        ((types, ms), p + 9),
    ));
}

/// A fragment without include directives yields inside an interface the
/// declarations that it yields by itself.
pub proof fn fragments_say_the_same_inside(src: Seq<u8>, types: Seq<Decl>)
    requires
        fragment_model(src) == Ok::<(Seq<Decl>, Seq<Seq<char>>), ErrorModel>((types, Seq::empty())),
    ensures
        parse_model(before_fragment() + src + behind_fragment()) == Ok::<
            InterfaceModel,
            ErrorModel,
        >(around(types)),
{
    let a = tokens(src)->Ok_0;
    tokens_end_with_eof(src);
    tokens_are_of_these_kinds(src);
    let ks = kinds(src)->Some_0;
    lemma_directives_grow(a, 0, Seq::empty());
    lemma_before();
    lemma_behind();
    reveal_strlit("interface I { ");
    reveal_strlit("\nfn z() -> (); }");
    let h = before_fragment();
    let t = behind_fragment();
    assert(h.last() == 32u8);
    assert(t[0] == 10u8);
    separate_texts_join(src, t);
    assert forall|i: int| 0 <= i < h.len() implies #[trigger] h[i] != 47u8 by {
        assert("interface I { "@[i] != '/');
    }
    lemma_no_comment(h);
    separate_texts_join(h, src + t);
    let all = h + src + t;
    assert(all =~= h + (src + t));
    tokens_are_of_these_kinds(all);
    let b = tokens(all)->Ok_0;
    let kb = head_toks() + (ks + tail_toks());
    assert(kinds(all) == Some(kb));
    assert(kb.push(Tok::Eof) =~= head_toks() + ks + (tail_toks() + seq![Tok::Eof]));
    lemma_kinds_stand(b, kb.push(Tok::Eof));
    lemma_split(b, 0, head_toks() + ks, tail_toks() + seq![Tok::Eof]);
    lemma_split(b, 0, head_toks(), ks);
    assert(kinds_of(a).len() == a.len());
    assert(a.len() == ks.len() + 1);
    assert(fits(a, b, 3)) by {
        assert forall|i: int| 0 <= i < a.len() - 1 implies (#[trigger] a[i]).kind == b[i + 3nat].kind by {
            assert(kinds_of(a)[i] == a[i].kind);
            assert(b[3nat + i].kind == ks[i]);
        }
        assert(b[(3nat + ks.len() + 0) as int].kind == (tail_toks() + seq![Tok::Eof])[0]);
    }
    carry_fragment(a, b, 3, 0, Seq::empty());
    lemma_tail(b, 3 + ks.len(), types);
    let hd = head_toks();
    assert(b[(0nat + 0) as int].kind == hd[0]);
    assert(b[(0nat + 1) as int].kind == hd[1]);
    assert(b[(0nat + 2) as int].kind == hd[2]);
    assert(directives(b, 0, Seq::empty()) == Ok::<(Seq<Seq<char>>, nat), ErrorModel>(
        (Seq::empty(), 0),
    ));
    assert(interface(b, 0, Seq::empty()) == Ok::<(InterfaceModel, nat), ErrorModel>(
        (around(types), 3 + ks.len() + 9),
    ));
}

} // verus!
