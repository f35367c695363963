//! The order of arguments in generated code: a method is called with its
//! inputs in the order in which it declares them, and they are decoded in that
//! order too.
use vstd::prelude::*;

use crate::ast::ParamModel;
use crate::dispatch::{argument_list, decode_block, decode_lines, dispatch_fn};
use crate::expand::{listed, MethodItem, TypedInput};
use crate::gen::call_args;
use crate::pygen::{is_out, py_params};

verus! {

// ---------------------------------------------------------------------------
// Taking a list apart
// ---------------------------------------------------------------------------

/// The parts of a text between the characters `sep`.
pub open spec fn split(s: Seq<char>, sep: char) -> Seq<Seq<char>>
    decreases s.len(),
{
    if s.len() == 0 {
        seq![Seq::empty()]
    } else {
        let before = split(s.drop_last(), sep);
        if s.last() == sep {
            before.push(Seq::empty())
        } else {
            before.drop_last().push(before.last().push(s.last()))
        }
    }
}

/// A text without the blank it may start with.
pub open spec fn unindented(s: Seq<char>) -> Seq<char> {
    if s.len() > 0 && s[0] == ' ' {
        s.skip(1)
    } else {
        s
    }
}

/// The arguments in a list of arguments.
pub open spec fn arguments(s: Seq<char>) -> Seq<Seq<char>> {
    split(s, ',').map_values(|a: Seq<char>| unindented(a))
}

/// Whether a text can stand for one argument: it has no comma, and does not
/// start with a blank.
pub open spec fn is_argument(s: Seq<char>) -> bool {
    !s.contains(',') && (s.len() > 0 ==> s[0] != ' ')
}

proof fn lemma_split_some(s: Seq<char>, sep: char)
    ensures
        split(s, sep).len() > 0,
    decreases s.len(),
{
    if s.len() > 0 {
        lemma_split_some(s.drop_last(), sep);
    }
}

/// What follows without a separator goes to the last part.
proof fn lemma_split_more(s: Seq<char>, t: Seq<char>, sep: char)
    requires
        !t.contains(sep),
    ensures
        split(s + t, sep) == split(s, sep).drop_last().push(split(s, sep).last() + t),
    decreases t.len(),
{
    lemma_split_some(s, sep);
    let parts = split(s, sep);
    if t.len() == 0 {
        assert(s + t =~= s);
        assert(parts.last() + t =~= parts.last());
        assert(parts.drop_last().push(parts.last()) =~= parts);
    } else {
        let u = t.drop_last();
        assert(!u.contains(sep)) by {
            if u.contains(sep) {
                let i = choose|i: int| 0 <= i < u.len() && u[i] == sep;
                assert(t[i] == sep);
            }
        }
        assert(t[t.len() - 1] != sep);
        assert((s + t).drop_last() =~= s + u);
        lemma_split_more(s, u, sep);
        let before = split(s + u, sep);
        assert(before.drop_last() =~= parts.drop_last());
        assert((parts.last() + u).push(t.last()) =~= parts.last() + t);
    }
}

/// What follows a separator is a part of its own.
proof fn lemma_split_next(s: Seq<char>, t: Seq<char>, sep: char)
    requires
        !t.contains(sep),
    ensures
        split(s.push(sep) + t, sep) == split(s, sep).push(t),
{
    let parts = split(s, sep);
    assert(s.push(sep).drop_last() =~= s);
    assert(split(s.push(sep), sep) == parts.push(Seq::empty()));
    lemma_split_more(s.push(sep), t, sep);
    assert(parts.push(Seq::empty()).drop_last() =~= parts);
    assert(Seq::<char>::empty() + t =~= t);
}

/// One more argument behind a comma.
proof fn lemma_one_more(s: Seq<char>, t: Seq<char>)
    requires
        is_argument(t),
    ensures
        arguments(s + ", "@ + t) == arguments(s).push(t),
{
    reveal_strlit(", ");
    let u = seq![' '] + t;
    assert(!u.contains(',')) by {
        if u.contains(',') {
            let i = choose|i: int| 0 <= i < u.len() && u[i] == ',';
            assert(i > 0 && t[i - 1] == ',');
        }
    }
    assert(s + ", "@ + t =~= s.push(',') + u);
    lemma_split_next(s, u, ',');
    assert(u.skip(1) =~= t);
    assert(arguments(s.push(',') + u) =~= arguments(s).push(t));
}

proof fn lemma_first(s: Seq<char>)
    requires
        is_argument(s),
    ensures
        arguments(s) == seq![s],
{
    let none = Seq::<char>::empty();
    assert(split(none, ',') =~= seq![none]);
    lemma_split_more(none, s, ',');
    assert(none + s =~= s);
    assert(split(s, ',') =~= seq![s]);
    assert(arguments(s) =~= seq![s]);
}

// ---------------------------------------------------------------------------
// Entry points
// ---------------------------------------------------------------------------

/// The inputs of a method but for its receiver.
pub open spec fn passed(ins: Seq<TypedInput>) -> Seq<TypedInput> {
    ins.filter(|x: TypedInput| listed(x))
}

/// The names of inputs.
pub open spec fn input_names(ins: Seq<TypedInput>) -> Seq<Seq<char>> {
    ins.map_values(|x: TypedInput| x.name->Some_0@)
}

/// Whether every name can stand for an argument.
pub open spec fn plain_inputs(ins: Seq<TypedInput>) -> bool {
    forall|i: int|
        0 <= i < ins.len() && listed(#[trigger] ins[i]) ==> is_argument(ins[i].name->Some_0@)
            && !ins[i].name->Some_0@.contains('\n') && !ins[i].ty.text@.contains('\n')
}

/// The statement that decodes one input.
pub open spec fn decode_statement(x: TypedInput) -> Seq<char> {
    "    let "@ + x.name->Some_0@ + ": "@ + x.ty.text@
        + " = dynspire::slots::decode_param(&mut reader);"@
}

proof fn lemma_argument_list(ins: Seq<TypedInput>, n: nat, first: Seq<char>)
    requires
        n <= ins.len(),
        plain_inputs(ins),
        is_argument(first),
    ensures
        arguments(first + argument_list(ins, n)) == seq![first] + input_names(
            passed(ins.take(n as int)),
        ),
    decreases n,
{
    reveal(Seq::filter);
    let now = ins.take(n as int);
    if n == 0 {
        assert(first + argument_list(ins, n) =~= first);
        lemma_first(first);
        assert(passed(now) =~= Seq::empty());
        assert(seq![first] + input_names(passed(now)) =~= seq![first]);
    } else {
        lemma_argument_list(ins, (n - 1) as nat, first);
        let before = ins.take(n - 1);
        assert(now.drop_last() =~= before);
        assert(now.last() == ins[n - 1]);
        if listed(ins[n - 1]) {
            let name = ins[n - 1].name->Some_0@;
            assert(passed(now) == passed(before).push(ins[n - 1]));
            lemma_one_more(first + argument_list(ins, (n - 1) as nat), name);
            assert(first + argument_list(ins, n) =~= first + argument_list(ins, (n - 1) as nat)
                + ", "@ + name);
            assert(seq![first] + input_names(passed(now)) =~= (seq![first] + input_names(
                passed(before),
            )).push(name));
        } else {
            assert(passed(now) == passed(before));
        }
    }
}

proof fn lemma_statement_is_one_line(x: TypedInput)
    requires
        !x.name->Some_0@.contains('\n'),
        !x.ty.text@.contains('\n'),
    ensures
        !decode_statement(x).contains('\n'),
{
    let a = "    let "@;
    let b = ": "@;
    let c = " = dynspire::slots::decode_param(&mut reader);"@;
    reveal_strlit("    let ");
    reveal_strlit(": ");
    reveal_strlit(" = dynspire::slots::decode_param(&mut reader);");
    let n = x.name->Some_0@;
    let t = x.ty.text@;
    let s = decode_statement(x);
    if s.contains('\n') {
        let i = choose|i: int| 0 <= i < s.len() && s[i] == '\n';
        let p = a.len() as int;
        let q = p + n.len();
        let r = q + b.len();
        let u = r + t.len();
        if i < p {
            assert(a[i] == '\n');
        } else if i < q {
            assert(n[i - p] == '\n');
        } else if i < r {
            assert(b[i - q] == '\n');
        } else if i < u {
            assert(t[i - r] == '\n');
        } else {
            assert(c[i - u] == '\n');
        }
    }
}

proof fn lemma_decode_lines(ins: Seq<TypedInput>, n: nat)
    requires
        n <= ins.len(),
        plain_inputs(ins),
    ensures
        split(decode_lines(ins, n), '\n') == passed(ins.take(n as int)).map_values(
            |x: TypedInput| decode_statement(x),
        ).push(Seq::empty()),
    decreases n,
{
    reveal(Seq::filter);
    let f = |x: TypedInput| decode_statement(x);
    let now = ins.take(n as int);
    let none = Seq::<char>::empty();
    if n == 0 {
        assert(passed(now) =~= Seq::empty());
        assert(passed(now).map_values(f).push(none) =~= seq![none]);
    } else {
        lemma_decode_lines(ins, (n - 1) as nat);
        let before = ins.take(n - 1);
        assert(now.drop_last() =~= before);
        assert(now.last() == ins[n - 1]);
        if listed(ins[n - 1]) {
            let x = ins[n - 1];
            let l = decode_statement(x);
            let text = decode_lines(ins, (n - 1) as nat);
            assert(passed(now) == passed(before).push(x));
            lemma_statement_is_one_line(x);
            lemma_split_more(text, l, '\n');
            reveal_strlit(" = dynspire::slots::decode_param(&mut reader);");
            reveal_strlit(" = dynspire::slots::decode_param(&mut reader);\n");
            assert(" = dynspire::slots::decode_param(&mut reader);\n"@
                =~= " = dynspire::slots::decode_param(&mut reader);"@.push('\n'));
            assert(decode_lines(ins, n) =~= (text + l).push('\n'));
            assert((text + l).push('\n').drop_last() =~= text + l);
            assert(none + l =~= l);
            let parts = passed(before).map_values(f);
            assert(parts.push(none).drop_last() =~= parts);
            assert(split(text + l, '\n') == parts.push(l));
            assert(passed(now).map_values(f) =~= parts.push(l));
        } else {
            assert(passed(now) == passed(before));
        }
    }
}

/// The entry point of a method up to its inputs.
pub open spec fn entry_head(state: Seq<char>, name: Seq<char>) -> Seq<char> {
    "#[no_mangle]\npub unsafe extern \"C\" fn dynspire_dispatch_"@ + name + r#"(
    state_handle: *mut std::ffi::c_void,
    in_slots: *const u64,
    in_count: usize,
    out_slots: *mut u64,
    out_capacity: usize,
) -> u8 {
    if state_handle.is_null() {
        return dynspire::slots::write_to_ffi(
            Err::<(), String>("null handle".to_string()),
            out_slots, out_capacity,
        );
    }
    let state = &*(state_handle as *const "#@ + state + ");\n"@
}

/// The statements that make the reader that inputs are decoded from.
pub open spec fn reader_setup() -> Seq<char> {
    r#"    let in_data = if !in_slots.is_null() && in_count > 0 {
        unsafe { std::slice::from_raw_parts(in_slots, in_count) }
    } else { &[] };
    let mut reader = dynspire::slots::SlotReader::new(in_data);
"#@
}

/// Where the inputs of a method are decoded in its entry point, and where the
/// method is called: `decoded` are the statements, and there are no other but
/// those that make the reader; `args` are the arguments.
pub open spec fn entry_point(
    f: Seq<char>,
    decoded: Seq<char>,
    tr: Seq<char>,
    state: Seq<char>,
    name: Seq<char>,
    args: Seq<char>,
) -> bool {
    exists|before: Seq<char>, after: Seq<char>|
        (before == entry_head(state, name) || before == entry_head(state, name) + reader_setup())
            && f == #[trigger] (before + decoded + "    let _result = <"@ + state + " as "@ + tr + ">::"@
            + name + "("@ + args + ");\n"@ + after)
}

/// The entry point of a method decodes the inputs other than `self` one per
/// statement and in order, each under its name and with its type, and calls the
/// method with the state and then with exactly these names, in the same order.
pub proof fn entry_points_pass_the_inputs_in_order(tr: Seq<char>, state: Seq<char>, m: MethodItem)
    requires
        plain_inputs(m.inputs@),
    ensures
        exists|decoded: Seq<char>, args: Seq<char>|
            {
                &&& #[trigger] entry_point(
                    dispatch_fn(tr, state, m),
                    decoded,
                    tr,
                    state,
                    m.name@,
                    args,
                )
                &&& arguments(args) == seq!["state"@] + input_names(passed(m.inputs@))
                &&& split(decoded, '\n') == passed(m.inputs@).map_values(
                    |x: TypedInput| decode_statement(x),
                ).push(Seq::empty())
            },
{
    let ins = m.inputs@;
    let n = ins.len();
    let list = argument_list(ins, n);
    let lines = decode_lines(ins, n);
    let args = "state"@ + list;
    assert(is_argument("state"@)) by {
        reveal_strlit("state");
    }
    assert(ins.take(n as int) =~= ins);
    lemma_argument_list(ins, n, "state"@);
    lemma_decode_lines(ins, n);
    let f = dispatch_fn(tr, state, m);
    let name = m.name@;
    let block = decode_block(ins);
    let reader = if list.len() == 0 {
        Seq::empty()
    } else {
        reader_setup()
    };
    if list.len() == 0 {
        lemma_nothing_listed(ins, n);
        assert(block =~= reader + lines);
    }
    let before = entry_head(state, name) + reader;
    let after = r#"    dynspire::slots::write_to_ffi(_result, out_slots, out_capacity)
}

"#@;
    assert("(state"@ =~= "("@ + "state"@) by {
        reveal_strlit("(state");
        reveal_strlit("(");
        reveal_strlit("state");
    }
    assert(r#");
    dynspire::slots::write_to_ffi(_result, out_slots, out_capacity)
}

"#@ =~= ");\n"@ + after) by {
        reveal_strlit(r#");
    dynspire::slots::write_to_ffi(_result, out_slots, out_capacity)
}

"#);
        reveal_strlit(");\n");
        reveal_strlit(r#"    dynspire::slots::write_to_ffi(_result, out_slots, out_capacity)
}

"#);
    }
    assert(f =~= before + lines + "    let _result = <"@ + state + " as "@ + tr + ">::"@ + name
        + "("@ + args + ");\n"@ + after);
    assert(entry_head(state, name) + Seq::<char>::empty() =~= entry_head(state, name));
    assert(entry_point(f, lines, tr, state, name, args));
}

proof fn lemma_nothing_listed(ins: Seq<TypedInput>, n: nat)
    requires
        n <= ins.len(),
        argument_list(ins, n).len() == 0,
    ensures
        decode_lines(ins, n) == Seq::<char>::empty(),
    decreases n,
{
    reveal_strlit(", ");
    if n > 0 {
        lemma_nothing_listed(ins, (n - 1) as nat);
    }
}

// ---------------------------------------------------------------------------
// Other lists
// ---------------------------------------------------------------------------

/// Whether every name can stand for an argument.
pub open spec fn plain_names(ps: Seq<ParamModel>) -> bool {
    forall|i: int| 0 <= i < ps.len() ==> is_argument((#[trigger] ps[i]).name)
}

proof fn lemma_call_args(ps: Seq<ParamModel>, n: nat)
    requires
        n <= ps.len(),
        plain_names(ps),
    ensures
        arguments(call_args(ps, n)) == seq!["state"@] + ps.take(n as int).map_values(
            |p: ParamModel| p.name,
        ),
    decreases n,
{
    let f = |p: ParamModel| p.name;
    if n == 0 {
        assert(is_argument("state"@)) by {
            reveal_strlit("state");
        }
        lemma_first("state"@);
        assert(seq!["state"@] + ps.take(0).map_values(f) =~= seq!["state"@]);
    } else {
        lemma_call_args(ps, (n - 1) as nat);
        lemma_one_more(call_args(ps, (n - 1) as nat), ps[n - 1].name);
        assert(seq!["state"@] + ps.take(n as int).map_values(f) =~= (seq!["state"@] + ps.take(
            n - 1,
        ).map_values(f)).push(ps[n - 1].name));
    }
}

/// Generated dispatch code calls a method with the state and then with its
/// parameters, by their names and in the order in which it declares them.
pub proof fn dispatch_passes_the_parameters_in_order(ps: Seq<ParamModel>)
    requires
        plain_names(ps),
    ensures
        arguments(call_args(ps, ps.len())) == seq!["state"@] + ps.map_values(
            |p: ParamModel| p.name,
        ),
{
    lemma_call_args(ps, ps.len());
    assert(ps.take(ps.len() as int) =~= ps);
}

proof fn lemma_py_params(ps: Seq<ParamModel>, n: nat)
    requires
        n <= ps.len(),
        plain_names(ps),
    ensures
        arguments("self"@ + py_params(ps, n)) == seq!["self"@] + ps.take(n as int).filter(
            |p: ParamModel| !is_out(p.ty),
        ).map_values(|p: ParamModel| p.name),
    decreases n,
{
    reveal(Seq::filter);
    let f = |p: ParamModel| p.name;
    let keep = |p: ParamModel| !is_out(p.ty);
    let now = ps.take(n as int);
    if n == 0 {
        assert(is_argument("self"@)) by {
            reveal_strlit("self");
        }
        lemma_first("self"@);
        assert("self"@ + py_params(ps, 0) =~= "self"@);
        assert(now.filter(keep) =~= Seq::empty());
        assert(seq!["self"@] + now.filter(keep).map_values(f) =~= seq!["self"@]);
    } else {
        lemma_py_params(ps, (n - 1) as nat);
        let before = ps.take(n - 1);
        assert(now.drop_last() =~= before);
        assert(now.last() == ps[n - 1]);
        if !is_out(ps[n - 1].ty) {
            let name = ps[n - 1].name;
            assert(now.filter(keep) == before.filter(keep).push(ps[n - 1]));
            lemma_one_more("self"@ + py_params(ps, (n - 1) as nat), name);
            assert("self"@ + py_params(ps, n) =~= "self"@ + py_params(ps, (n - 1) as nat) + ", "@
                + name);
            assert(seq!["self"@] + now.filter(keep).map_values(f) =~= (seq!["self"@]
                + before.filter(keep).map_values(f)).push(name));
        } else {
            assert(now.filter(keep) == before.filter(keep));
        }
    }
}

/// A method of the generated Python client takes `self` and then the parameters
/// that are not for output, in the order in which the method declares them.
pub proof fn python_takes_the_parameters_in_order(ps: Seq<ParamModel>)
    requires
        plain_names(ps),
    ensures
        arguments("self"@ + py_params(ps, ps.len())) == seq!["self"@] + ps.filter(
            |p: ParamModel| !is_out(p.ty),
        ).map_values(|p: ParamModel| p.name),
{
    lemma_py_params(ps, ps.len());
    assert(ps.take(ps.len() as int) =~= ps);
}

} // verus!
