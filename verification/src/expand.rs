//! Expansion: the Rust source that the attribute macros of a spier produce.
//!
//! The macros hand over what they have parsed, names, texts and type shapes,
//! and get back source text.
use vstd::prelude::*;
use vstd::string::{StrSliceExecFns, StringExecFns};

use crate::ast::{fnv1a, fnv1a_64};
use crate::gen::{pascal, pascal_case};
use crate::text::{
    dec, decimal, parts, remove_char, same, split_commas, strings_model, to_upper, upper_text,
    without_char,
};
use crate::typetable::{
    added, adding_keeps_table, continues, empty_table, gen_node, has_room, leaf, lemma_with_node,
    list_name, node_code, weight, wf_table, with_name, with_node, IdlKind, IdlTypeNode, RustType,
    Shape, Table, TypeTableBuilder,
};

verus! {

// ---------------------------------------------------------------------------
// What the macros parse
// ---------------------------------------------------------------------------

/// A parameter of a method with a type: its name, if its pattern is a name.
pub struct TypedInput {
    pub name: Option<String>,
    pub ty: RustType,
}

/// A method of a trait or an impl.
pub struct MethodItem {
    pub name: String,
    pub inputs: Vec<TypedInput>,
    pub output: Option<RustType>,
}

/// A trait: what stands before its supertraits, these, its body, its methods.
pub struct TraitItem {
    pub head: String,
    pub name: String,
    pub supertraits: Vec<String>,
    pub body: String,
    pub methods: Vec<MethodItem>,
}

/// The value type in `Result<T, _>`.
pub open spec fn ok_type(ty: RustType) -> Option<RustType> {
    match ty.shape {
        Shape::Path(ident, _, arg) => match arg {
            Some(inner) => if ident@ == "Result"@ {
                Some(*inner)
            } else {
                None
            },
            None => None,
        },
        _ => None,
    }
}

/// The value type in `Result<T, _>`.
pub fn extract_ok_type(ty: &RustType) -> (r: Option<&RustType>)
    ensures
        match r {
            Some(t) => ok_type(*ty) == Some(*t),
            None => ok_type(*ty) is None,
        },
{
    match &ty.shape {
        Shape::Path(ident, _, arg) => match arg {
            Some(inner) => {
                if same(ident.as_str(), "Result") {
                    Some(&**inner)
                } else {
                    None
                }
            },
            None => None,
        },
        _ => None,
    }
}

// ---------------------------------------------------------------------------
// Canonical signature
// ---------------------------------------------------------------------------

/// The type texts of the first `n` inputs, without blanks, separated by commas.
pub open spec fn sig_inputs(ins: Seq<TypedInput>, n: nat) -> Seq<char>
    decreases n,
{
    if n == 0 {
        Seq::empty()
    } else {
        let one = without_char(ins[n - 1].ty.text@, ' ');
        if n == 1 {
            one
        } else {
            sig_inputs(ins, (n - 1) as nat) + ","@ + one
        }
    }
}

/// The signature of a method: name, input types and output type.
pub open spec fn sig_method(m: MethodItem) -> Seq<char> {
    m.name@ + "("@ + sig_inputs(m.inputs@, m.inputs@.len()) + ")->"@ + (match m.output {
        Some(t) => without_char(t.text@, ' '),
        None => "()"@,
    })
}

/// The signatures of the first `n` methods.
pub open spec fn sig_methods(ms: Seq<MethodItem>, n: nat) -> Seq<char>
    decreases n,
{
    if n == 0 {
        Seq::empty()
    } else if n == 1 {
        sig_method(ms[0])
    } else {
        sig_methods(ms, (n - 1) as nat) + ","@ + sig_method(ms[n - 1])
    }
}

/// The canonical signature of a trait, from which its hash is computed:
/// `Name{method(types)->type,...}`, without blanks in the types.
pub open spec fn trait_sig(name: Seq<char>, ms: Seq<MethodItem>) -> Seq<char> {
    name + "{"@ + sig_methods(ms, ms.len()) + "}"@
}

/// The hash of a trait.
pub open spec fn trait_hash(name: Seq<char>, ms: Seq<MethodItem>) -> u64 {
    fnv1a(vstd::utf8::encode_utf8(trait_sig(name, ms)))
}

/// Removes the blanks that a token printer puts between tokens.
pub fn clean_type_str(s: &str) -> (r: String)
    ensures
        r@ == without_char(s@, ' '),
{
    remove_char(s, ' ')
}

fn gen_sig_method(m: &MethodItem) -> (r: String)
    ensures
        r@ == sig_method(*m),
{
    let mut params = String::new();
    let mut i: usize = 0;
    while i < m.inputs.len()
        invariant
            i <= m.inputs.len(),
            params@ == sig_inputs(m.inputs@, i as nat),
        decreases m.inputs.len() - i,
    {
        let one = clean_type_str(m.inputs[i].ty.text.as_str());
        if i == 0 {
            params = one;
        } else {
            params = params.concat(",").concat(one.as_str());
        }
        i = i + 1;
    }
    let ret = match &m.output {
        Some(t) => clean_type_str(t.text.as_str()),
        None => String::from_str("()"),
    };
    m.name.clone().concat("(").concat(params.as_str()).concat(")->").concat(ret.as_str())
}

/// The canonical signature of a trait.
pub fn build_canonical_sig(trait_name: &str, methods: &Vec<MethodItem>) -> (r: String)
    ensures
        r@ == trait_sig(trait_name@, methods@),
{
    let mut all = String::new();
    let mut i: usize = 0;
    while i < methods.len()
        invariant
            i <= methods.len(),
            all@ == sig_methods(methods@, i as nat),
        decreases methods.len() - i,
    {
        let one = gen_sig_method(&methods[i]);
        if i == 0 {
            all = one;
        } else {
            all = all.concat(",").concat(one.as_str());
        }
        i = i + 1;
    }
    String::from_str(trait_name).concat("{").concat(all.as_str()).concat("}")
}

/// The hash of a trait does not depend on the blanks in its types.
pub proof fn hash_ignores_blanks(name: Seq<char>, a: Seq<MethodItem>, b: Seq<MethodItem>)
    requires
        a.len() == b.len(),
        forall|i: int|
            0 <= i < a.len() ==> {
                &&& (#[trigger] a[i]).name@ == b[i].name@
                &&& a[i].inputs@.len() == b[i].inputs@.len()
                &&& forall|j: int|
                    0 <= j < a[i].inputs@.len() ==> without_char(
                        (#[trigger] a[i].inputs@[j]).ty.text@,
                        ' ',
                    ) == without_char(b[i].inputs@[j].ty.text@, ' ')
                &&& a[i].output is Some <==> b[i].output is Some
                &&& a[i].output is Some ==> without_char(a[i].output->Some_0.text@, ' ')
                    == without_char(b[i].output->Some_0.text@, ' ')
            },
    ensures
        trait_hash(name, a) == trait_hash(name, b),
{
    lemma_sig_methods_blanks(a, b, a.len());
}

proof fn lemma_sig_inputs_blanks(a: Seq<TypedInput>, b: Seq<TypedInput>, n: nat)
    requires
        n <= a.len(),
        a.len() == b.len(),
        forall|j: int|
            0 <= j < a.len() ==> without_char((#[trigger] a[j]).ty.text@, ' ') == without_char(
                b[j].ty.text@,
                ' ',
            ),
    ensures
        sig_inputs(a, n) == sig_inputs(b, n),
    decreases n,
{
    if n > 0 {
        assert(without_char(a[n - 1].ty.text@, ' ') == without_char(b[n - 1].ty.text@, ' '));
        lemma_sig_inputs_blanks(a, b, (n - 1) as nat);
    }
}

proof fn lemma_sig_methods_blanks(a: Seq<MethodItem>, b: Seq<MethodItem>, n: nat)
    requires
        n <= a.len(),
        a.len() == b.len(),
        forall|i: int|
            0 <= i < a.len() ==> {
                &&& (#[trigger] a[i]).name@ == b[i].name@
                &&& a[i].inputs@.len() == b[i].inputs@.len()
                &&& forall|j: int|
                    0 <= j < a[i].inputs@.len() ==> without_char(
                        (#[trigger] a[i].inputs@[j]).ty.text@,
                        ' ',
                    ) == without_char(b[i].inputs@[j].ty.text@, ' ')
                &&& a[i].output is Some <==> b[i].output is Some
                &&& a[i].output is Some ==> without_char(a[i].output->Some_0.text@, ' ')
                    == without_char(b[i].output->Some_0.text@, ' ')
            },
    ensures
        sig_methods(a, n) == sig_methods(b, n),
    decreases n,
{
    if n > 0 {
        let x = a[n - 1];
        let y = b[n - 1];
        lemma_sig_inputs_blanks(x.inputs@, y.inputs@, x.inputs@.len());
        assert(sig_method(x) == sig_method(y));
        lemma_sig_methods_blanks(a, b, (n - 1) as nat);
    }
}

// ---------------------------------------------------------------------------
// Interface macro
// ---------------------------------------------------------------------------

/// Whether an input is a parameter that the schema lists.
pub open spec fn listed(x: TypedInput) -> bool {
    x.name is Some && x.name->Some_0@ != "self"@
}

/// The schema entries of the first `n` inputs: the type table after them, their
/// text and their number.
pub open spec fn param_entries(t: Table, ins: Seq<TypedInput>, n: nat) -> (Table, Seq<char>, nat)
    decreases n,
{
    if n == 0 {
        (t, Seq::empty(), 0)
    } else {
        let before = param_entries(t, ins, (n - 1) as nat);
        if listed(ins[n - 1]) {
            let (t1, idx) = added(before.0, ins[n - 1].ty);
            let pn = ins[n - 1].name->Some_0@;
            let entry = "dynspire::ffi::IdlParam { name: b\""@
                + pn
                + "\\0\".as_ptr(), name_len: \""@
                + pn
                + "\".len(), type_idx: "@
                + dec(idx as nat)
                + " }"@;
            (
                t1,
                if before.2 == 0 {
                    entry
                } else {
                    before.1 + ", "@ + entry
                },
                before.2 + 1,
            )
        } else {
            before
        }
    }
}

/// The value type of a method's return; `None` if it returns no `Result`.
pub open spec fn return_type(m: MethodItem) -> Option<RustType> {
    match m.output {
        Some(t) => ok_type(t),
        None => None,
    }
}

/// The schema entry and the release arm of a method, after the type table has
/// been extended by its parameters and its return.
pub open spec fn method_entry(t: Table, m: MethodItem) -> (Table, Seq<char>, Seq<char>) {
    let mn = m.name@;
    let (t0, entries, count) = param_entries(t, m.inputs@, m.inputs@.len());
    let (t1, idx) = match return_type(m) {
        Some(ty) => added(t0, ty),
        None => with_node(t0, leaf(IdlKind::Unit)),
    };
    let ok = match return_type(m) {
        Some(ty) => ty.text@,
        None => "()"@,
    };
    (
        t1,
        if count == 0 {
            "        dynspire::ffi::IdlMethod { name: b\""@
                + mn
                + "\\0\".as_ptr(), name_len: \""@
                + mn
                + "\".len(), params: std::ptr::null(), param_count: 0, return_type_idx: "@
                + dec(idx as nat)
                + ", _pad: [0; 4] },\n"@
        } else {
            "        dynspire::ffi::IdlMethod { name: b\""@
                + mn
                + "\\0\".as_ptr(), name_len: \""@
                + mn
                + "\".len(), params: ["@
                + entries
                + "].as_ptr(), param_count: "@
                + dec(count as nat)
                + ", return_type_idx: "@
                + dec(idx as nat)
                + ", _pad: [0; 4] },\n"@
        },
        "        "@
            + dec(idx as nat)
            + " => {\n            let _: "@
            + ok
            + r#" = dynspire::slots::SlotReceive::from_slots(&mut r);
        }
"#@,
    )
}

/// The schema entries and the release arms of the first `n` methods.
pub open spec fn method_entries(ms: Seq<MethodItem>, n: nat) -> (Table, Seq<char>, Seq<char>)
    decreases n,
{
    if n == 0 {
        (empty_table(), Seq::empty(), Seq::empty())
    } else {
        let before = method_entries(ms, (n - 1) as nat);
        let one = method_entry(before.0, ms[n - 1]);
        (one.0, before.1 + one.1, before.2 + one.2)
    }
}

/// How many nodes the first `n` inputs take at most.
pub open spec fn inputs_weight(ins: Seq<TypedInput>, n: nat) -> nat
    decreases n,
{
    if n == 0 {
        0
    } else {
        inputs_weight(ins, (n - 1) as nat) + weight(ins[n - 1].ty)
    }
}

/// How many nodes the first `n` methods take at most.
pub open spec fn methods_weight(ms: Seq<MethodItem>, n: nat) -> nat
    decreases n,
{
    if n == 0 {
        0
    } else {
        methods_weight(ms, (n - 1) as nat) + inputs_weight(
            ms[n - 1].inputs@,
            ms[n - 1].inputs@.len(),
        ) + (match return_type(ms[n - 1]) {
            Some(ty) => weight(ty),
            None => 1,
        })
    }
}

/// The type table of an interface is well formed, and each method only adds to
/// what the methods before it have listed.
pub proof fn interface_table_is_well_formed(ms: Seq<MethodItem>, n: nat)
    requires
        n <= ms.len(),
        methods_weight(ms, n) <= usize::MAX,
    ensures
        wf_table(method_entries(ms, n).0),
        n > 0 ==> continues(method_entries(ms, (n - 1) as nat).0, method_entries(ms, n).0),
        has_room(method_entries(ms, n).0, (usize::MAX - methods_weight(ms, n)) as nat),
    decreases n,
{
    if n > 0 {
        interface_table_is_well_formed(ms, (n - 1) as nat);
        let m = ms[n - 1];
        let t = method_entries(ms, (n - 1) as nat).0;
        let w = inputs_weight(m.inputs@, m.inputs@.len());
        lemma_param_table(t, m.inputs@, m.inputs@.len());
        let t0 = param_entries(t, m.inputs@, m.inputs@.len()).0;
        match return_type(m) {
            Some(ty) => adding_keeps_table(t0, ty),
            None => lemma_with_node(t0, leaf(IdlKind::Unit)),
        }
    }
}

proof fn lemma_param_table(t: Table, ins: Seq<TypedInput>, n: nat)
    requires
        n <= ins.len(),
        wf_table(t),
        has_room(t, inputs_weight(ins, n)),
    ensures
        wf_table(param_entries(t, ins, n).0),
        continues(t, param_entries(t, ins, n).0),
        param_entries(t, ins, n).0.nodes.len() <= t.nodes.len() + inputs_weight(ins, n),
        param_entries(t, ins, n).0.enums.len() <= t.enums.len() + inputs_weight(ins, n),
        param_entries(t, ins, n).0.structs.len() <= t.structs.len() + inputs_weight(ins, n),
    decreases n,
{
    if n > 0 {
        lemma_param_table(t, ins, (n - 1) as nat);
        adding_keeps_table(param_entries(t, ins, (n - 1) as nat).0, ins[n - 1].ty);
    }
}

struct Entries {
    table: TypeTableBuilder,
    methods: String,
    frees: String,
}

fn gen_method_entries(ms: &Vec<MethodItem>) -> (r: Entries)
    ensures
        (r.table@, r.methods@, r.frees@) == method_entries(ms@, ms@.len()),
{
    let mut table = TypeTableBuilder::new();
    let mut methods = String::new();
    let mut frees = String::new();
    let mut i: usize = 0;
    while i < ms.len()
        invariant
            i <= ms.len(),
            (table@, methods@, frees@) == method_entries(ms@, i as nat),
        decreases ms.len() - i,
    {
        let m = &ms[i];
        let ghost t = table@;
        let mn = m.name.as_str();
        let mut entries = String::new();
        let mut count: usize = 0;
        let mut j: usize = 0;
        while j < m.inputs.len()
            invariant
                j <= m.inputs.len(),
                count <= j,
                (table@, entries@, count as nat) == param_entries(t, m.inputs@, j as nat),
            decreases m.inputs.len() - j,
        {
            let x = &m.inputs[j];
            match &x.name {
                Some(pn) => {
                    if !same(pn.as_str(), "self") {
                        let pn = pn.as_str();
                        let idx = table.add(&x.ty);
                        let entry = String::from_str("dynspire::ffi::IdlParam { name: b\"")
                            .concat(pn)
                            .concat("\\0\".as_ptr(), name_len: \"")
                            .concat(pn)
                            .concat("\".len(), type_idx: ")
                            .concat(decimal(idx as u64).as_str())
                            .concat(" }");
                        if count == 0 {
                            entries = entry;
                        } else {
                            entries = entries.concat(", ").concat(entry.as_str());
                        }
                        count = count + 1;
                    }
                },
                None => {},
            }
            j = j + 1;
        }
        let ret = match &m.output {
            Some(t) => extract_ok_type(t),
            None => None,
        };
        let idx: usize = match ret {
            Some(ty) => table.add(ty),
            None => table.add_unit(),
        };
        let ok = match ret {
            Some(ty) => ty.text.clone(),
            None => String::from_str("()"),
        };
        let entry = if count == 0 {
            String::from_str("        dynspire::ffi::IdlMethod { name: b\"")
                .concat(mn)
                .concat("\\0\".as_ptr(), name_len: \"")
                .concat(mn)
                .concat("\".len(), params: std::ptr::null(), param_count: 0, return_type_idx: ")
                .concat(decimal(idx as u64).as_str())
                .concat(", _pad: [0; 4] },\n")
        } else {
            String::from_str("        dynspire::ffi::IdlMethod { name: b\"")
                .concat(mn)
                .concat("\\0\".as_ptr(), name_len: \"")
                .concat(mn)
                .concat("\".len(), params: [")
                .concat(entries.as_str())
                .concat("].as_ptr(), param_count: ")
                .concat(decimal(count as u64).as_str())
                .concat(", return_type_idx: ")
                .concat(decimal(idx as u64).as_str())
                .concat(", _pad: [0; 4] },\n")
        };
        let free = String::from_str("        ")
            .concat(decimal(idx as u64).as_str())
            .concat(" => {\n            let _: ")
            .concat(ok.as_str())
            .concat(r#" = dynspire::slots::SlotReceive::from_slots(&mut r);
        }
"#);
        methods = methods.concat(entry.as_str());
        frees = frees.concat(free.as_str());
        i = i + 1;
    }
    Entries { table, methods, frees }
}

/// The enum names of a table, followed by the first `n` further names as far as
/// they are not in it.
pub open spec fn with_extra(names: Seq<Seq<char>>, extra: Seq<Seq<char>>, n: nat) -> Seq<Seq<char>>
    decreases n,
{
    if n == 0 {
        names
    } else {
        with_name(with_extra(names, extra, (n - 1) as nat), extra[n - 1]).0
    }
}

/// The names that are not empty.
pub open spec fn non_empty(names: Seq<Seq<char>>) -> Seq<Seq<char>> {
    names.filter(|s: Seq<char>| s.len() > 0)
}

/// Whether a part of the attribute is `enums(...)`.
pub open spec fn is_enums(part: Seq<char>) -> bool {
    &&& part.len() >= 7
    &&& part.take(6) == "enums("@
    &&& part.last() == ')'
}

/// The names in the first part of the attribute, from `i` on, that is
/// `enums(...)`.
pub open spec fn enums_from(ps: Seq<Seq<char>>, i: nat) -> Seq<Seq<char>>
    decreases ps.len() - i,
{
    if i >= ps.len() {
        Seq::empty()
    } else if is_enums(ps[i as int]) {
        non_empty(parts(ps[i as int].subrange(6, ps[i as int].len() - 1), false))
    } else {
        enums_from(ps, i + 1)
    }
}

/// The enum names that the attribute `enums(Name, ...)` registers.
pub open spec fn extra_enums(attr: Seq<char>) -> Seq<Seq<char>> {
    enums_from(parts(attr, true), 0)
}

/// Reads `enums(Name1, Name2, ...)` from the attribute.
pub fn parse_extra_enum_names(attr: &str) -> (r: Vec<String>)
    ensures
        strings_model(r@) == extra_enums(attr@),
{
    let ps = split_commas(attr, true);
    let ghost pm = strings_model(ps@);
    let mut i: usize = 0;
    while i < ps.len()
        invariant
            i <= ps.len(),
            pm == strings_model(ps@),
            enums_from(pm, 0) == enums_from(pm, i as nat),
            pm == parts(attr@, true),
        decreases ps.len() - i,
    {
        let part = ps[i].as_str();
        let n: usize = part.unicode_len();
        if n >= 7 && same(part.substring_char(0, 6), "enums(") && part.get_char(n - 1) == ')' {
            assert(part@.subrange(0, 6) =~= part@.take(6));
            let names = split_commas(part.substring_char(6, n - 1), false);
            return keep_non_empty(&names);
        }
        assert(part@.len() >= 6 ==> part@.subrange(0, 6) =~= part@.take(6));
        i = i + 1;
    }
    let none: Vec<String> = Vec::new();
    assert(strings_model(none@) =~= Seq::empty());
    none
}

fn keep_non_empty(names: &Vec<String>) -> (r: Vec<String>)
    ensures
        strings_model(r@) == non_empty(strings_model(names@)),
{
    let ghost m = strings_model(names@);
    let mut out: Vec<String> = Vec::new();
    let mut i: usize = 0;
    proof {
        reveal(Seq::filter);
        assert(strings_model(out@) =~= non_empty(m.take(0)));
    }
    while i < names.len()
        invariant
            i <= names.len(),
            m == strings_model(names@),
            strings_model(out@) == non_empty(m.take(i as int)),
        decreases names.len() - i,
    {
        let ghost before = strings_model(out@);
        proof {
            reveal(Seq::filter);
            assert(m.take(i + 1).drop_last() =~= m.take(i as int));
        }
        if !names[i].as_str().is_empty() {
            out.push(names[i].clone());
            assert(strings_model(out@) =~= before.push(m[i as int]));
        }
        i = i + 1;
    }
    assert(m.take(names@.len() as int) =~= m);
    out
}


/// The name before the suffix `Engine`, and the whole name without that suffix.
pub open spec fn engine_prefix(name: Seq<char>) -> Seq<char> {
    if name.len() >= 6 && name.skip(name.len() - 6) == "Engine"@ {
        name.take(name.len() - 6)
    } else {
        name
    }
}

fn strip_engine(name: &str) -> (r: String)
    ensures
        r@ == engine_prefix(name@),
{
    let n: usize = name.unicode_len();
    if n >= 6 {
        assert(name@.subrange(n - 6, n as int) =~= name@.skip(n - 6));
        assert(name@.subrange(0, n - 6) =~= name@.take(n - 6));
        if same(name.substring_char(n - 6, n), "Engine") {
            return String::from_str(name.substring_char(0, n - 6));
        }
    }
    String::from_str(name)
}

/// What the interface macro writes for each method.
#[derive(Clone, Copy, PartialEq, Eq, Structural)]
pub enum PerMethod {
    Variant,
    FromU8,
    Name,
}

/// The texts for the first `n` methods.
pub open spec fn per_method(what: PerMethod, ms: Seq<MethodItem>, n: nat) -> Seq<char>
    decreases n,
{
    if n == 0 {
        Seq::empty()
    } else {
        let before = per_method(what, ms, (n - 1) as nat);
        let i = n - 1;
        let name = ms[n - 1].name@;
        let variant = pascal_case(name);
        match what {
            PerMethod::Variant => before + ("    "@ + variant + " = "@ + dec(i as nat) + ",\n"@),
            PerMethod::FromU8 => before + ("            "@
                + dec(i as nat)
                + " => Some(Self::"@
                + variant
                + "),\n"@),
            PerMethod::Name => if n == 1 {
                "\""@ + name + "\""@
            } else {
                before + ", "@ + ("\""@ + name + "\""@)
            },
        }
    }
}

fn gen_per_method(what: PerMethod, ms: &Vec<MethodItem>) -> (r: String)
    ensures
        r@ == per_method(what, ms@, ms@.len()),
{
    let mut out = String::new();
    let mut i: usize = 0;
    while i < ms.len()
        invariant
            i <= ms.len(),
            out@ == per_method(what, ms@, i as nat),
        decreases ms.len() - i,
    {
        let name = ms[i].name.as_str();
        let variant = pascal(name);
        match what {
            PerMethod::Variant => {
                let line = String::from_str("    ")
                    .concat(variant.as_str())
                    .concat(" = ")
                    .concat(decimal(i as u64).as_str())
                    .concat(",\n");
                out = out.concat(line.as_str());
            },
            PerMethod::FromU8 => {
                let line = String::from_str("            ")
                    .concat(decimal(i as u64).as_str())
                    .concat(" => Some(Self::")
                    .concat(variant.as_str())
                    .concat("),\n");
                out = out.concat(line.as_str());
            },
            PerMethod::Name => {
                let line = String::from_str("\"").concat(name).concat("\"");
                if i == 0 {
                    out = line;
                } else {
                    out = out.concat(", ").concat(line.as_str());
                }
            },
        }
        i = i + 1;
    }
    out
}

/// What the interface macro writes for each enum or struct name.
#[derive(Clone, Copy, PartialEq, Eq, Structural)]
pub enum PerName {
    StructDescriptor,
    StructPointer,
    EnumPointer,
}

/// The texts for the first `n` names.
pub open spec fn per_name(what: PerName, names: Seq<Seq<char>>, n: nat) -> Seq<char>
    decreases n,
{
    if n == 0 {
        Seq::empty()
    } else {
        let name = names[n - 1];
        let len = vstd::utf8::encode_utf8(name).len();
        per_name(what, names, (n - 1) as nat) + (match what {
            PerName::StructDescriptor => "#[doc(hidden)]\npub static __SLOT_STRUCT_DESCRIPTOR_"@
                + name
                + ": dynspire::ffi::StructDescriptor = dynspire::ffi::StructDescriptor {\n    name: b\""@
                + name
                + "\\0\".as_ptr(),\n    name_len: "@
                + dec(len as nat)
                + r#",
};

"#@,
            PerName::StructPointer => "        &(super::__SLOT_STRUCT_DESCRIPTOR_"@
                + name
                + "),\n"@,
            PerName::EnumPointer => "        &(super::__SLOT_ENUM_DESCRIPTOR_"@ + name + "),\n"@,
        })
    }
}

fn gen_per_name(what: PerName, names: &Vec<String>) -> (r: String)
    ensures
        r@ == per_name(what, strings_model(names@), names@.len()),
{
    let mut out = String::new();
    let mut i: usize = 0;
    while i < names.len()
        invariant
            i <= names.len(),
            out@ == per_name(what, strings_model(names@), i as nat),
        decreases names.len() - i,
    {
        let name = names[i].as_str();
        let len: usize = name.as_bytes().len();
        let line = match what {
            PerName::StructDescriptor => String::from_str("#[doc(hidden)]\npub static __SLOT_STRUCT_DESCRIPTOR_")
                .concat(name)
                .concat(": dynspire::ffi::StructDescriptor = dynspire::ffi::StructDescriptor {\n    name: b\"")
                .concat(name)
                .concat("\\0\".as_ptr(),\n    name_len: ")
                .concat(decimal(len as u64).as_str())
                .concat(r#",
};

"#),
            PerName::StructPointer => String::from_str("        &(super::__SLOT_STRUCT_DESCRIPTOR_")
                .concat(name)
                .concat("),\n"),
            PerName::EnumPointer => String::from_str("        &(super::__SLOT_ENUM_DESCRIPTOR_")
                .concat(name)
                .concat("),\n"),
        };
        out = out.concat(line.as_str());
        i = i + 1;
    }
    out
}

/// The first `n` nodes of a type table.
pub open spec fn node_lines(nodes: Seq<IdlTypeNode>, n: nat) -> Seq<char>
    decreases n,
{
    if n == 0 {
        Seq::empty()
    } else {
        node_lines(nodes, (n - 1) as nat) + "        "@ + node_code(nodes[n - 1]) + ",\n"@
    }
}

pub(crate) fn gen_node_lines(nodes: &Vec<IdlTypeNode>) -> (r: String)
    ensures
        r@ == node_lines(nodes@, nodes@.len()),
{
    let mut out = String::new();
    let mut i: usize = 0;
    while i < nodes.len()
        invariant
            i <= nodes.len(),
            out@ == node_lines(nodes@, i as nat),
        decreases nodes.len() - i,
    {
        out = out.concat("        ").concat(gen_node(nodes[i]).as_str()).concat(",\n");
        i = i + 1;
    }
    out
}

/// The first `n` supertraits, each followed by ` + `.
pub open spec fn bound_list(bounds: Seq<Seq<char>>, n: nat) -> Seq<char>
    decreases n,
{
    if n == 0 {
        Seq::empty()
    } else {
        bound_list(bounds, (n - 1) as nat) + bounds[n - 1] + " + "@
    }
}

fn gen_bound_list(bounds: &Vec<String>) -> (r: String)
    ensures
        r@ == bound_list(strings_model(bounds@), bounds@.len()),
{
    let mut out = String::new();
    let mut i: usize = 0;
    while i < bounds.len()
        invariant
            i <= bounds.len(),
            out@ == bound_list(strings_model(bounds@), i as nat),
        decreases bounds.len() - i,
    {
        out = out.concat(bounds[i].as_str()).concat(" + ");
        i = i + 1;
    }
    out
}

/// The trait with the bounds `Send + Sync`, its hash constant and its op enum.
pub open spec fn interface_trait(item: TraitItem) -> Seq<char> {
    let ms = item.methods@;
    let head = item.head@;
    let bounds = bound_list(strings_model(item.supertraits@), item.supertraits@.len());
    let body = item.body@;
    let prefix = engine_prefix(item.name@);
    let upper = upper_text(prefix);
    let hash = trait_hash(item.name@, ms);
    let variants = per_method(PerMethod::Variant, ms, ms.len());
    let arms = per_method(PerMethod::FromU8, ms, ms.len());
    "#[allow(dead_code)]\n"@
        + head
        + ": "@
        + bounds
        + "Send + Sync "@
        + body
        + r#"

pub const "#@
        + upper
        + "_IDL_HASH: u64 = "@
        + dec(hash as nat)
        + r#";

pub fn idl_schema() -> &'static dynspire::ffi::DynSpireIdl {
    &tower::IDL_SCHEMA
}

#[repr(u8)]
#[derive(Debug, Clone, Copy, PartialEq, Eq)]
pub enum "#@
        + prefix
        + "Op {\n"@
        + variants
        + r#"}

impl "#@
        + prefix
        + r#"Op {
    pub fn from_u8(v: u8) -> Option<Self> {
        match v {
"#@
        + arms
        + r#"            _ => None,
        }
    }
}

impl dynspire::SpierOp for "#@
        + prefix
        + r#"Op {
    fn as_index(self) -> usize { self as usize }
}

"#@
}

/// The schema of the interface: method names, types, methods, enums, structs.
pub open spec fn interface_tower(item: TraitItem, extra: Seq<Seq<char>>) -> Seq<char> {
    let ms = item.methods@;
    let hash = trait_hash(item.name@, ms);
    let (table, methods, _frees) = method_entries(ms, ms.len());
    let names = per_method(PerMethod::Name, ms, ms.len());
    let nodes = node_lines(table.nodes, table.nodes.len());
    let enums = with_extra(table.enums, extra, extra.len());
    let enum_ptrs = per_name(PerName::EnumPointer, enums, enums.len());
    let struct_ptrs = per_name(PerName::StructPointer, table.structs, table.structs.len());
    let type_count = table.nodes.len();
    let method_count = ms.len();
    let enum_count = enums.len();
    let struct_count = table.structs.len();
    r#"pub mod tower {
    use super::*;

    pub const METHODS: &[&str] = &["#@
        + names
        + r#"];

    pub static IDL_TYPE_TABLE: &[dynspire::ffi::IdlTypeNode] = &[
"#@
        + nodes
        + r#"    ];

    pub static IDL_METHODS: &[dynspire::ffi::IdlMethod] = &[
"#@
        + methods
        + r#"    ];

    pub static IDL_ENUM_PTRS: &[&'static dynspire::ffi::EnumDescriptor] = &[
"#@
        + enum_ptrs
        + r#"    ];

    pub static IDL_STRUCT_PTRS: &[&'static dynspire::ffi::StructDescriptor] = &[
"#@
        + struct_ptrs
        + r#"    ];

    pub static IDL_SCHEMA: dynspire::ffi::DynSpireIdl = dynspire::ffi::DynSpireIdl {
        name: b"\0".as_ptr(),
        name_len: 0,
        hash: "#@
        + dec(hash as nat)
        + r#",
        type_table: IDL_TYPE_TABLE.as_ptr(),
        type_count: "#@
        + dec(type_count as nat)
        + r#",
        methods: IDL_METHODS.as_ptr(),
        method_count: "#@
        + dec(method_count as nat)
        + r#",
        enum_table: IDL_ENUM_PTRS.as_ptr() as *const *const dynspire::ffi::EnumDescriptor,
        enum_count: "#@
        + dec(enum_count as nat)
        + r#",
        struct_table: IDL_STRUCT_PTRS.as_ptr() as *const *const dynspire::ffi::StructDescriptor,
        struct_count: "#@
        + dec(struct_count as nat)
        + r#",
        free_fn: super::dynspire_free,
    };
}

"#@
}

/// What the interface macro produces for a trait.
pub open spec fn interface_code(attr: Seq<char>, item: TraitItem) -> Seq<char> {
    let ms = item.methods@;
    let hash = trait_hash(item.name@, ms);
    let (table, _methods, frees) = method_entries(ms, ms.len());
    interface_trait(item) + per_name(
        PerName::StructDescriptor,
        table.structs,
        table.structs.len(),
    ) + interface_tower(item, extra_enums(attr)) + ("pub static IDL: dynspire::IdlDescriptor = dynspire::IdlDescriptor {\n    hash: "@
        + dec(hash as nat)
        + r#",
    methods: tower::METHODS,
};

pub unsafe extern "C" fn dynspire_free(
    type_index: u32,
    slots: *const u64,
    slot_count: usize,
) {
    if slots.is_null() || slot_count == 0 { return; }
    let slice = std::slice::from_raw_parts(slots, slot_count);
    let mut r = dynspire::slots::SlotReader::new(slice);
    let tag = r.read_u64();
    if tag == 1 {
        let _: String = dynspire::slots::SlotReceive::from_slots(&mut r);
        return;
    }
    match type_index {
"#@
        + frees
        + r#"        _ => {}
    }
}
"#@)
}

fn gen_interface_trait(item: &TraitItem, hash: u64) -> (r: String)
    requires
        hash == trait_hash(item.name@, item.methods@),
    ensures
        r@ == interface_trait(*item),
{
    let head = item.head.as_str();
    let bounds = gen_bound_list(&item.supertraits);
    let body = item.body.as_str();
    let prefix = strip_engine(item.name.as_str());
    let upper = to_upper(prefix.as_str());
    let variants = gen_per_method(PerMethod::Variant, &item.methods);
    let arms = gen_per_method(PerMethod::FromU8, &item.methods);
    String::from_str("#[allow(dead_code)]\n")
        .concat(head)
        .concat(": ")
        .concat(bounds.as_str())
        .concat("Send + Sync ")
        .concat(body)
        .concat(r#"

pub const "#)
        .concat(upper.as_str())
        .concat("_IDL_HASH: u64 = ")
        .concat(decimal(hash as u64).as_str())
        .concat(r#";

pub fn idl_schema() -> &'static dynspire::ffi::DynSpireIdl {
    &tower::IDL_SCHEMA
}

#[repr(u8)]
#[derive(Debug, Clone, Copy, PartialEq, Eq)]
pub enum "#)
        .concat(prefix.as_str())
        .concat("Op {\n")
        .concat(variants.as_str())
        .concat(r#"}

impl "#)
        .concat(prefix.as_str())
        .concat(r#"Op {
    pub fn from_u8(v: u8) -> Option<Self> {
        match v {
"#)
        .concat(arms.as_str())
        .concat(r#"            _ => None,
        }
    }
}

impl dynspire::SpierOp for "#)
        .concat(prefix.as_str())
        .concat(r#"Op {
    fn as_index(self) -> usize { self as usize }
}

"#)
}

fn add_extra(names: &mut Vec<String>, extra: &Vec<String>)
    ensures
        strings_model(final(names)@) == with_extra(
            strings_model(old(names)@),
            strings_model(extra@),
            extra@.len(),
        ),
{
    let ghost before = strings_model(names@);
    let ghost em = strings_model(extra@);
    let mut i: usize = 0;
    while i < extra.len()
        invariant
            i <= extra.len(),
            em == strings_model(extra@),
            strings_model(names@) == with_extra(before, em, i as nat),
        decreases extra.len() - i,
    {
        list_name(names, extra[i].as_str());
        i = i + 1;
    }
}

/// Expands the interface macro: the trait, its hash, its op enum and its schema.
pub fn modulo_interface(attr: &str, item: &TraitItem) -> (r: String)
    ensures
        r@ == interface_code(attr@, *item),
{
    let extra = parse_extra_enum_names(attr);
    let sig = build_canonical_sig(item.name.as_str(), &item.methods);
    let hash: u64 = fnv1a_64(sig.as_str().as_bytes());
    let entries = gen_method_entries(&item.methods);
    let mut table = entries.table;
    let methods = entries.methods;
    let frees = entries.frees;
    let ghost t = table@;
    let names = gen_per_method(PerMethod::Name, &item.methods);
    let nodes = gen_node_lines(&table.nodes);
    let type_count: usize = table.nodes.len();
    let method_count: usize = item.methods.len();
    add_extra(&mut table.enum_type_names, &extra);
    let ghost enums = strings_model(table.enum_type_names@);
    assert(enums == with_extra(t.enums, extra_enums(attr@), extra_enums(attr@).len()));
    let enum_ptrs = gen_per_name(PerName::EnumPointer, &table.enum_type_names);
    let enum_count: usize = table.enum_type_names.len();
    let struct_ptrs = gen_per_name(PerName::StructPointer, &table.struct_type_names);
    let struct_count: usize = table.struct_type_names.len();
    let tower = String::from_str(r#"pub mod tower {
    use super::*;

    pub const METHODS: &[&str] = &["#)
        .concat(names.as_str())
        .concat(r#"];

    pub static IDL_TYPE_TABLE: &[dynspire::ffi::IdlTypeNode] = &[
"#)
        .concat(nodes.as_str())
        .concat(r#"    ];

    pub static IDL_METHODS: &[dynspire::ffi::IdlMethod] = &[
"#)
        .concat(methods.as_str())
        .concat(r#"    ];

    pub static IDL_ENUM_PTRS: &[&'static dynspire::ffi::EnumDescriptor] = &[
"#)
        .concat(enum_ptrs.as_str())
        .concat(r#"    ];

    pub static IDL_STRUCT_PTRS: &[&'static dynspire::ffi::StructDescriptor] = &[
"#)
        .concat(struct_ptrs.as_str())
        .concat(r#"    ];

    pub static IDL_SCHEMA: dynspire::ffi::DynSpireIdl = dynspire::ffi::DynSpireIdl {
        name: b"\0".as_ptr(),
        name_len: 0,
        hash: "#)
        .concat(decimal(hash as u64).as_str())
        .concat(r#",
        type_table: IDL_TYPE_TABLE.as_ptr(),
        type_count: "#)
        .concat(decimal(type_count as u64).as_str())
        .concat(r#",
        methods: IDL_METHODS.as_ptr(),
        method_count: "#)
        .concat(decimal(method_count as u64).as_str())
        .concat(r#",
        enum_table: IDL_ENUM_PTRS.as_ptr() as *const *const dynspire::ffi::EnumDescriptor,
        enum_count: "#)
        .concat(decimal(enum_count as u64).as_str())
        .concat(r#",
        struct_table: IDL_STRUCT_PTRS.as_ptr() as *const *const dynspire::ffi::StructDescriptor,
        struct_count: "#)
        .concat(decimal(struct_count as u64).as_str())
        .concat(r#",
        free_fn: super::dynspire_free,
    };
}

"#);
    assert(tower@ == interface_tower(*item, extra_enums(attr@)));
    let descs = gen_per_name(PerName::StructDescriptor, &table.struct_type_names);
    let tail = String::from_str("pub static IDL: dynspire::IdlDescriptor = dynspire::IdlDescriptor {\n    hash: ")
        .concat(decimal(hash as u64).as_str())
        .concat(r#",
    methods: tower::METHODS,
};

pub unsafe extern "C" fn dynspire_free(
    type_index: u32,
    slots: *const u64,
    slot_count: usize,
) {
    if slots.is_null() || slot_count == 0 { return; }
    let slice = std::slice::from_raw_parts(slots, slot_count);
    let mut r = dynspire::slots::SlotReader::new(slice);
    let tag = r.read_u64();
    if tag == 1 {
        let _: String = dynspire::slots::SlotReceive::from_slots(&mut r);
        return;
    }
    match type_index {
"#)
        .concat(frees.as_str())
        .concat(r#"        _ => {}
    }
}
"#);
    gen_interface_trait(item, hash).concat(descs.as_str()).concat(tower.as_str()).concat(
        tail.as_str(),
    )
}

} // verus!
