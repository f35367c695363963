//! Expansion of the macros on a spier's implementation: the C entry points for
//! its methods, and those that create and destroy its state.
use vstd::prelude::*;
use vstd::string::{StrSliceExecFns, StringExecFns};

use crate::expand::{extract_ok_type, listed, ok_type, MethodItem, TypedInput};
use crate::text::{same, trim_char, unquoted};
use crate::typetable::{RustType, Shape};

verus! {

// ---------------------------------------------------------------------------
// Attributes
// ---------------------------------------------------------------------------

/// A token of an attribute.
pub enum AttrToken {
    Ident(String),
    Literal(String),
    Punct(char),
    /// A group in brackets, as text.
    Group(String),
}

/// The text of a token.
pub open spec fn token_text(t: AttrToken) -> Seq<char> {
    match t {
        AttrToken::Ident(s) => s@,
        AttrToken::Literal(s) => s@,
        AttrToken::Punct(c) => seq![c],
        AttrToken::Group(s) => s@,
    }
}

/// Whether a blank is needed between two tokens.
pub open spec fn spaced(a: AttrToken, b: AttrToken) -> bool {
    !(a is Punct) && !(b is Punct)
}

/// The text of the `n` tokens from `lo` on.
pub open spec fn joined(ts: Seq<AttrToken>, lo: nat, n: nat) -> Seq<char>
    decreases n,
{
    if n == 0 {
        Seq::empty()
    } else {
        let before = joined(ts, lo, (n - 1) as nat);
        let last = ts[lo + n - 1];
        if n >= 2 && spaced(ts[lo + n - 2], last) {
            before + " "@ + token_text(last)
        } else {
            before + token_text(last)
        }
    }
}

/// The position of the first comma from `i` on, and the end if there is none.
pub open spec fn comma_from(ts: Seq<AttrToken>, i: nat) -> nat
    decreases ts.len() - i,
{
    if i >= ts.len() {
        ts.len()
    } else if ts[i as int] == AttrToken::Punct(',') {
        i
    } else {
        comma_from(ts, i + 1)
    }
}

/// Whether the token at `i` is the word `word`.
pub open spec fn word_at(ts: Seq<AttrToken>, i: nat, word: Seq<char>) -> bool {
    match ts[i as int] {
        AttrToken::Ident(s) => s@ == word,
        _ => false,
    }
}

/// The arguments of the dispatch attribute: the byte string of the spier's name
/// and the expression for the interface hash.
pub struct DispatchModel {
    pub name: Seq<char>,
    pub idl: Seq<char>,
}

/// The byte string for the name in a literal.
pub open spec fn name_bytes(lit: Seq<char>) -> Seq<char> {
    "b\""@ + unquoted(lit, '"') + "\\0\""@
}

/// The arguments in the tokens from `i` on, where `acc` has been read before.
/// A later `name` or `idl` replaces an earlier one.
pub open spec fn attrs_from(ts: Seq<AttrToken>, i: nat, acc: DispatchModel) -> DispatchModel
    decreases ts.len() - i, 
    via attrs_from_ends
{
    if i >= ts.len() {
        acc
    } else if word_at(ts, i, "name"@) {
        if i + 2 < ts.len() {
            match ts[(i + 2) as int] {
                AttrToken::Literal(s) => attrs_from(
                    ts,
                    i + 3,
                    DispatchModel { name: name_bytes(s@), ..acc },
                ),
                _ => attrs_from(ts, i + 3, acc),
            }
        } else {
            acc
        }
    } else if word_at(ts, i, "idl"@) {
        if i + 2 < ts.len() {
            let end = comma_from(ts, i + 2);
            attrs_from(
                ts,
                end,
                DispatchModel { idl: joined(ts, i + 2, (end - (i + 2)) as nat), ..acc },
            )
        } else {
            DispatchModel { idl: Seq::empty(), ..acc }
        }
    } else {
        attrs_from(ts, i + 1, acc)
    }
}

#[via_fn]
proof fn attrs_from_ends(ts: Seq<AttrToken>, i: nat, acc: DispatchModel) {
    if i + 2 < ts.len() {
        lemma_comma_after(ts, i + 2);
    }
}

proof fn lemma_comma_after(ts: Seq<AttrToken>, i: nat)
    ensures
        i <= ts.len() ==> i <= comma_from(ts, i) <= ts.len(),
    decreases ts.len() - i,
{
    if i < ts.len() {
        lemma_comma_after(ts, i + 1);
    }
}

/// The arguments of a dispatch attribute.
pub open spec fn dispatch_attrs(ts: Seq<AttrToken>) -> DispatchModel {
    attrs_from(ts, 0, DispatchModel { name: "b\"unknown\\0\""@, idl: "0u64"@ })
}

/// The arguments of the dispatch attribute.
pub struct DispatchAttrs {
    pub name: String,
    pub idl: String,
}

impl View for DispatchAttrs {
    type V = DispatchModel;

    open spec fn view(&self) -> DispatchModel {
        DispatchModel { name: self.name@, idl: self.idl@ }
    }
}

fn is_word(t: &AttrToken, word: &str) -> (r: bool)
    ensures
        r == match *t {
            AttrToken::Ident(s) => s@ == word@,
            _ => false,
        },
{
    match t {
        AttrToken::Ident(s) => same(s.as_str(), word),
        _ => false,
    }
}

fn gen_token(t: &AttrToken) -> (r: String)
    ensures
        r@ == token_text(*t),
{
    match t {
        AttrToken::Ident(s) => s.clone(),
        AttrToken::Literal(s) => s.clone(),
        AttrToken::Punct(c) => {
            let mut out = String::new();
            out.push(*c);
            assert(out@ =~= seq![*c]);
            out
        },
        AttrToken::Group(s) => s.clone(),
    }
}

fn is_punct(t: &AttrToken) -> (r: bool)
    ensures
        r == (*t is Punct),
{
    match t {
        AttrToken::Punct(_) => true,
        _ => false,
    }
}

/// Reads the tokens up to the next comma.
fn read_expr(ts: &Vec<AttrToken>, lo: usize) -> (r: (String, usize))
    requires
        lo <= ts@.len(),
    ensures
        r.1 == comma_from(ts@, lo as nat),
        lo <= r.1 <= ts@.len(),
        r.0@ == joined(ts@, lo as nat, (r.1 - lo) as nat),
{
    let mut out = String::new();
    let mut i: usize = lo;
    while i < ts.len()
        invariant
            lo <= i <= ts.len(),
            comma_from(ts@, lo as nat) == comma_from(ts@, i as nat),
            out@ == joined(ts@, lo as nat, (i - lo) as nat),
        decreases ts.len() - i,
    {
        match &ts[i] {
            AttrToken::Punct(c) => {
                if *c == ',' {
                    return (out, i);
                }
            },
            _ => {},
        }
        if i > lo && !is_punct(&ts[i - 1]) && !is_punct(&ts[i]) {
            out = out.concat(" ");
        }
        out = out.concat(gen_token(&ts[i]).as_str());
        i = i + 1;
    }
    (out, i)
}

/// Reads `name = "..."` and `idl = path::to::HASH`.
pub fn parse_dispatch_attrs(ts: &Vec<AttrToken>) -> (r: DispatchAttrs)
    ensures
        r@ == dispatch_attrs(ts@),
{
    let mut out = DispatchAttrs {
        name: String::from_str("b\"unknown\\0\""),
        idl: String::from_str("0u64"),
    };
    let mut i: usize = 0;
    while i < ts.len()
        invariant
            i <= ts.len(),
            dispatch_attrs(ts@) == attrs_from(ts@, i as nat, out@),
        decreases ts.len() - i,
    {
        let left: usize = ts.len() - i;
        if is_word(&ts[i], "name") {
            if left <= 2 {
                return out;
            }
            match &ts[i + 2] {
                AttrToken::Literal(s) => {
                    let inner = trim_char(s.as_str(), '"');
                    out.name = String::from_str("b\"").concat(inner.as_str()).concat("\\0\"");
                },
                _ => {},
            }
            i = i + 3;
        } else if is_word(&ts[i], "idl") {
            if left <= 2 {
                out.idl = String::new();
                assert(out.idl@ =~= Seq::empty());
                return out;
            }
            let (expr, end) = read_expr(ts, i + 2);
            out.idl = expr;
            i = end;
        } else {
            i = i + 1;
        }
    }
    out
}

/// The two arguments as the attribute is usually written,
/// `name = "...", idl = path`, are what the reader gives back.
pub proof fn attributes_are_read(ts: Seq<AttrToken>, path: Seq<AttrToken>)
    requires
        path.len() > 0,
        forall|i: int| 0 <= i < path.len() ==> #[trigger] path[i] != AttrToken::Punct(','),
        ts.len() == 6 + path.len(),
        ts.skip(6) == path,
        word_at(ts, 0, "name"@),
        ts[1] == AttrToken::Punct('='),
        ts[2] is Literal,
        ts[3] == AttrToken::Punct(','),
        word_at(ts, 4, "idl"@),
        ts[5] == AttrToken::Punct('='),
    ensures
        dispatch_attrs(ts) == (DispatchModel {
            name: name_bytes(ts[2]->Literal_0@),
            idl: joined(path, 0, path.len()),
        }),
{
    reveal_strlit("name");
    reveal_strlit("idl");
    let acc = DispatchModel { name: "b\"unknown\\0\""@, idl: "0u64"@ };
    let acc1 = DispatchModel { name: name_bytes(ts[2]->Literal_0@), ..acc };
    assert(attrs_from(ts, 0, acc) == attrs_from(ts, 3, acc1));
    assert(attrs_from(ts, 3, acc1) == attrs_from(ts, 4, acc1));
    assert("name"@.len() == 4);
    assert("idl"@.len() == 3);
    assert(!word_at(ts, 4, "name"@));
    assert forall|k: int| 0 <= k < path.len() implies ts[6 + k] == #[trigger] path[k] by {
        assert(ts.skip(6)[k] == ts[6 + k]);
    }
    assert forall|i: int| 6 <= i < ts.len() implies #[trigger] ts[i] != AttrToken::Punct(',') by {
        assert(path[i - 6] == ts[6 + (i - 6)]);
    }
    lemma_no_comma(ts, 6);
    lemma_joined_shift(ts, path, 6, path.len());
    assert(attrs_from(ts, 4, acc1) == attrs_from(
        ts,
        ts.len(),
        DispatchModel { idl: joined(ts, 6, path.len()), ..acc1 },
    ));
}

proof fn lemma_no_comma(ts: Seq<AttrToken>, i: nat)
    requires
        i <= ts.len(),
        forall|k: int| i <= k < ts.len() ==> #[trigger] ts[k] != AttrToken::Punct(','),
    ensures
        comma_from(ts, i) == ts.len(),
    decreases ts.len() - i,
{
    if i < ts.len() {
        lemma_no_comma(ts, i + 1);
    }
}

proof fn lemma_joined_shift(ts: Seq<AttrToken>, path: Seq<AttrToken>, lo: nat, n: nat)
    requires
        n <= path.len(),
        lo + path.len() == ts.len(),
        forall|k: int| 0 <= k < path.len() ==> ts[lo + k] == #[trigger] path[k],
    ensures
        joined(ts, lo, n) == joined(path, 0, n),
    decreases n,
{
    if n > 0 {
        lemma_joined_shift(ts, path, lo, (n - 1) as nat);
        assert(ts[lo + (n - 1)] == path[n - 1]);
        if n >= 2 {
            assert(ts[lo + (n - 2)] == path[n - 2]);
        }
    }
}

// ---------------------------------------------------------------------------
// Schema path
// ---------------------------------------------------------------------------

/// `s` without the characters at its end that are colons, or that are none.
pub open spec fn drop_end(s: Seq<char>, colons: bool) -> Seq<char>
    decreases s.len(),
{
    if s.len() > 0 && (s.last() == ':') == colons {
        drop_end(s.drop_last(), colons)
    } else {
        s
    }
}

/// Whether `s` holds `::`.
pub open spec fn has_path_sep(s: Seq<char>) -> bool {
    exists|i: int| 0 <= i < s.len() - 1 && #[trigger] s[i] == ':' && s[i + 1] == ':'
}

/// The path that a constant's path starts with: `a::b` for `a::b::NAME`.
pub open spec fn parent_path(s: Seq<char>) -> Seq<char> {
    if has_path_sep(s) {
        drop_end(drop_end(s, false), true)
    } else {
        Seq::empty()
    }
}

/// The call that gives the schema that belongs to a hash constant.
pub open spec fn schema_call(idl: Seq<char>) -> Seq<char> {
    if parent_path(idl).len() == 0 {
        "idl_schema()"@
    } else {
        parent_path(idl) + "::idl_schema()"@
    }
}

fn find_path_sep(s: &str) -> (r: bool)
    ensures
        r == has_path_sep(s@),
{
    let n: usize = s.unicode_len();
    let mut i: usize = 1;
    while i < n
        invariant
            1 <= i,
            n == s@.len(),
            forall|k: int| 0 <= k < i - 1 && k < n - 1 ==> !(#[trigger] s@[k] == ':' && s@[k + 1] == ':'),
        decreases n - i,
    {
        if s.get_char(i - 1) == ':' && s.get_char(i) == ':' {
            assert(s@[i - 1] == ':' && s@[i - 1 + 1] == ':');
            return true;
        }
        i = i + 1;
    }
    false
}

fn cut_end(s: &str, colons: bool) -> (r: String)
    ensures
        r@ == drop_end(s@, colons),
{
    let mut n: usize = s.unicode_len();
    assert(s@.take(n as int) =~= s@);
    while n > 0 && (s.get_char(n - 1) == ':') == colons
        invariant
            n <= s@.len(),
            drop_end(s@, colons) == drop_end(s@.take(n as int), colons),
        decreases n,
    {
        assert(s@.take(n as int).drop_last() =~= s@.take(n - 1));
        n = n - 1;
    }
    assert(s@.subrange(0, n as int) =~= s@.take(n as int));
    String::from_str(s.substring_char(0, n))
}

fn gen_schema_call(idl: &str) -> (r: String)
    ensures
        r@ == schema_call(idl@),
{
    if find_path_sep(idl) {
        let head = cut_end(idl, false);
        let parent = cut_end(head.as_str(), true);
        if parent.as_str().unicode_len() > 0 {
            return parent.concat("::idl_schema()");
        }
    }
    String::from_str("idl_schema()")
}

// ---------------------------------------------------------------------------
// Dispatch functions
// ---------------------------------------------------------------------------

/// An `impl` block: its text, the trait it implements, if any, the type it is
/// for, and its methods.
pub struct ImplItem {
    pub text: String,
    pub trait_path: Option<String>,
    pub state_type: String,
    pub methods: Vec<MethodItem>,
}

/// The statements that decode the first `n` inputs.
pub open spec fn decode_lines(ins: Seq<TypedInput>, n: nat) -> Seq<char>
    decreases n,
{
    if n == 0 {
        Seq::empty()
    } else if listed(ins[n - 1]) {
        let name = ins[n - 1].name->Some_0@;
        let ty = ins[n - 1].ty.text@;
        decode_lines(ins, (n - 1) as nat) + ("    let "@
            + name
            + ": "@
            + ty
            + " = dynspire::slots::decode_param(&mut reader);\n"@)
    } else {
        decode_lines(ins, (n - 1) as nat)
    }
}

/// The names of the first `n` inputs, each behind a comma.
pub open spec fn argument_list(ins: Seq<TypedInput>, n: nat) -> Seq<char>
    decreases n,
{
    if n == 0 {
        Seq::empty()
    } else if listed(ins[n - 1]) {
        argument_list(ins, (n - 1) as nat) + ", "@ + ins[n - 1].name->Some_0@
    } else {
        argument_list(ins, (n - 1) as nat)
    }
}

/// The block that decodes the inputs; empty if there are none.
pub open spec fn decode_block(ins: Seq<TypedInput>) -> Seq<char> {
    if argument_list(ins, ins.len()).len() == 0 {
        Seq::empty()
    } else {
        (r#"    let in_data = if !in_slots.is_null() && in_count > 0 {
        unsafe { std::slice::from_raw_parts(in_slots, in_count) }
    } else { &[] };
    let mut reader = dynspire::slots::SlotReader::new(in_data);
"#@) + decode_lines(ins, ins.len())
    }
}

/// The C entry point of a method.
pub open spec fn dispatch_fn(tr: Seq<char>, state: Seq<char>, m: MethodItem) -> Seq<char> {
    let name = m.name@;
    let decode = decode_block(m.inputs@);
    let args = argument_list(m.inputs@, m.inputs@.len());
    "#[no_mangle]\npub unsafe extern \"C\" fn dynspire_dispatch_"@
        + name
        + r#"(
    state_handle: *mut std::ffi::c_void,
    in_slots: *const u64,
    in_count: usize,
    out_slots: *mut u64,
    out_capacity: usize,
) -> u8 {
    if state_handle.is_null() {
        return dynspire::slots::write_to_ffi(
            Err::<(), String>("null handle".to_string()),
            out_slots, out_capacity,
        );
    }
    let state = &*(state_handle as *const "#@
        + state
        + ");\n"@
        + decode
        + "    let _result = <"@
        + state
        + " as "@
        + tr
        + ">::"@
        + name
        + "(state"@
        + args
        + r#");
    dynspire::slots::write_to_ffi(_result, out_slots, out_capacity)
}

"#@
}

/// The C entry points of the first `n` methods.
pub open spec fn dispatch_fns(tr: Seq<char>, state: Seq<char>, ms: Seq<MethodItem>, n: nat) -> Seq<
    char,
>
    decreases n,
{
    if n == 0 {
        Seq::empty()
    } else {
        dispatch_fns(tr, state, ms, (n - 1) as nat) + dispatch_fn(tr, state, ms[n - 1])
    }
}

/// Whether a method returns a `Result`.
pub open spec fn fallible(m: MethodItem) -> bool {
    match m.output {
        Some(t) => ok_type(t) is Some,
        None => false,
    }
}

/// Whether every method returns a `Result`.
pub open spec fn all_fallible(ms: Seq<MethodItem>) -> bool {
    forall|i: int| 0 <= i < ms.len() ==> fallible(#[trigger] ms[i])
}

/// What the dispatch macro produces, or the error it reports: the block has to
/// implement a trait, and each of its methods has to return a `Result`.
pub open spec fn dispatch_code(attr: Seq<AttrToken>, item: ImplItem) -> Result<
    Seq<char>,
    Seq<char>,
> {
    match item.trait_path {
        None => Err("#[spier_dispatch] expects impl Trait for State"@),
        Some(tr) => if !all_fallible(item.methods@) {
            Err("dispatch methods must return Result<T, String>"@)
        } else {
            let text = item.text@;
            let name = dispatch_attrs(attr).name;
            let idl = dispatch_attrs(attr).idl;
            let schema = schema_call(idl);
            Ok(
                (text
                    + r#"

#[no_mangle]
pub extern "C" fn dynspire_idl_hash() -> u64 {
    "#@
                    + idl
                    + r#"
}

#[no_mangle]
pub extern "C" fn dynspire_spier_name() -> *const u8 {
    "#@
                    + name
                    + r#".as_ptr()
}

#[no_mangle]
pub extern "C" fn dynspire_idl_schema() -> *const dynspire::ffi::DynSpireIdl {
    "#@
                    + schema
                    + r#"
}

"#@) + dispatch_fns(
                    tr@,
                    item.state_type@,
                    item.methods@,
                    item.methods@.len(),
                ),
            )
        },
    }
}

fn gen_dispatch_fn(tr: &str, state: &str, m: &MethodItem) -> (r: String)
    ensures
        r@ == dispatch_fn(tr@, state@, *m),
{
    let ghost ins = m.inputs@;
    let mut lines = String::new();
    let mut args = String::new();
    let mut i: usize = 0;
    while i < m.inputs.len()
        invariant
            i <= m.inputs.len(),
            ins == m.inputs@,
            lines@ == decode_lines(ins, i as nat),
            args@ == argument_list(ins, i as nat),
        decreases m.inputs.len() - i,
    {
        let x = &m.inputs[i];
        match &x.name {
            Some(name) => {
                let name = name.as_str();
                if !same(name, "self") {
                    let ty = x.ty.text.as_str();
                    lines = lines.concat("    let ")
                        .concat(name)
                        .concat(": ")
                        .concat(ty)
                        .concat(" = dynspire::slots::decode_param(&mut reader);\n");
                    proof {
                        let name = name@;
                        let ty = ty@;
                        assert(lines@ =~= decode_lines(ins, i as nat) + ("    let "@
                            + name
                            + ": "@
                            + ty
                            + " = dynspire::slots::decode_param(&mut reader);\n"@));
                    }
                    args = args.concat(", ").concat(name);
                }
            },
            None => {},
        }
        i = i + 1;
    }
    let decode = if args.as_str().unicode_len() == 0 {
        String::new()
    } else {
        (String::from_str(r#"    let in_data = if !in_slots.is_null() && in_count > 0 {
        unsafe { std::slice::from_raw_parts(in_slots, in_count) }
    } else { &[] };
    let mut reader = dynspire::slots::SlotReader::new(in_data);
"#)).concat(lines.as_str())
    };
    assert(decode@ =~= decode_block(ins));
    let name = m.name.as_str();
    String::from_str("#[no_mangle]\npub unsafe extern \"C\" fn dynspire_dispatch_")
        .concat(name)
        .concat(r#"(
    state_handle: *mut std::ffi::c_void,
    in_slots: *const u64,
    in_count: usize,
    out_slots: *mut u64,
    out_capacity: usize,
) -> u8 {
    if state_handle.is_null() {
        return dynspire::slots::write_to_ffi(
            Err::<(), String>("null handle".to_string()),
            out_slots, out_capacity,
        );
    }
    let state = &*(state_handle as *const "#)
        .concat(state)
        .concat(");\n")
        .concat(decode.as_str())
        .concat("    let _result = <")
        .concat(state)
        .concat(" as ")
        .concat(tr)
        .concat(">::")
        .concat(name)
        .concat("(state")
        .concat(args.as_str())
        .concat(r#");
    dynspire::slots::write_to_ffi(_result, out_slots, out_capacity)
}

"#)
}

/// Expands the dispatch macro: the block itself, and a C entry point for the
/// hash, the name, the schema and each method.
pub fn spier_dispatch(attr: &Vec<AttrToken>, item: &ImplItem) -> (r: Result<String, String>)
    ensures
        match r {
            Ok(code) => dispatch_code(attr@, *item) == Ok::<Seq<char>, Seq<char>>(code@),
            Err(e) => dispatch_code(attr@, *item) == Err::<Seq<char>, Seq<char>>(e@),
        },
{
    let tr = match &item.trait_path {
        Some(path) => path.as_str(),
        None => {
            return Err(String::from_str("#[spier_dispatch] expects impl Trait for State"));
        },
    };
    let state = item.state_type.as_str();
    let attrs = parse_dispatch_attrs(attr);
    let text = item.text.as_str();
    let name = attrs.name.as_str();
    let idl = attrs.idl.as_str();
    let schema = gen_schema_call(idl);
    let mut fns = String::new();
    let mut i: usize = 0;
    while i < item.methods.len()
        invariant
            i <= item.methods.len(),
            fns@ == dispatch_fns(tr@, state@, item.methods@, i as nat),
            forall|k: int| 0 <= k < i ==> fallible(#[trigger] item.methods@[k]),
            item.trait_path is Some,
        decreases item.methods.len() - i,
    {
        let m = &item.methods[i];
        let has_result = match &m.output {
            Some(t) => extract_ok_type(t).is_some(),
            None => false,
        };
        if !has_result {
            assert(!fallible(item.methods@[i as int]));
            return Err(String::from_str("dispatch methods must return Result<T, String>"));
        }
        let one = gen_dispatch_fn(tr, state, m);
        fns = fns.concat(one.as_str());
        i = i + 1;
    }
    Ok((String::from_str(text)
        .concat(r#"

#[no_mangle]
pub extern "C" fn dynspire_idl_hash() -> u64 {
    "#)
        .concat(idl)
        .concat(r#"
}

#[no_mangle]
pub extern "C" fn dynspire_spier_name() -> *const u8 {
    "#)
        .concat(name)
        .concat(r#".as_ptr()
}

#[no_mangle]
pub extern "C" fn dynspire_idl_schema() -> *const dynspire::ffi::DynSpireIdl {
    "#)
        .concat(schema.as_str())
        .concat(r#"
}

"#)).concat(fns.as_str()))
}

// ---------------------------------------------------------------------------
// State functions
// ---------------------------------------------------------------------------

/// The function that makes a spier's state: visibility, text, name, return type.
pub struct InitItem {
    pub vis: String,
    pub text: String,
    pub name: String,
    pub output: Option<RustType>,
}

/// The state type: the first type argument of the return type.
pub open spec fn state_type(item: InitItem) -> Option<RustType> {
    match item.output {
        Some(t) => match t.shape {
            Shape::Path(_, _, arg) => match arg {
                Some(inner) => Some(*inner),
                None => None,
            },
            _ => None,
        },
        None => None,
    }
}

/// What the storage macro produces, or the error it reports: the function has
/// to return a type with a type argument.
pub open spec fn storage_code(item: InitItem) -> Result<Seq<char>, Seq<char>> {
    match state_type(item) {
        Some(ty) => {
            let vis = item.vis@;
            let text = item.text@;
            let name = item.name@;
            let state = ty.text@;
            Ok(vis
                + " "@
                + text
                + r#"

#[no_mangle]
pub extern "C" fn dynspire_create(
    data_ptr: *const u8,
    data_len: usize,
) -> *mut std::ffi::c_void {
    let config = if data_ptr.is_null() || data_len == 0 {
        std::collections::HashMap::new()
    } else {
        let data = unsafe { std::slice::from_raw_parts(data_ptr, data_len) };
        dynspire::deserialize_kvmap(data)
    };
    match "#@
                + name
                + r#"(&config) {
        Ok(state) => Box::into_raw(Box::new(state)) as *mut std::ffi::c_void,
        Err(e) => {
            eprintln!("spier init failed: {e}");
            std::ptr::null_mut()
        }
    }
}

#[no_mangle]
pub extern "C" fn dynspire_destroy(handle: *mut std::ffi::c_void) {
    if !handle.is_null() {
        unsafe {
            drop(Box::from_raw(handle as *mut "#@
                + state
                + r#"));
        }
    }
}
"#@)
        },
        None => Err("init function must return Result<StateType, String>"@),
    }
}

/// Expands the storage macro: the function itself, and the C entry points that
/// create and destroy a state.
pub fn spier_storage(item: &InitItem) -> (r: Result<String, String>)
    ensures
        match r {
            Ok(code) => storage_code(*item) == Ok::<Seq<char>, Seq<char>>(code@),
            Err(e) => storage_code(*item) == Err::<Seq<char>, Seq<char>>(e@),
        },
{
    if let Some(t) = &item.output {
        if let Shape::Path(_, _, arg) = &t.shape {
            if let Some(inner) = arg {
                let vis = item.vis.as_str();
                let text = item.text.as_str();
                let name = item.name.as_str();
                let state = inner.text.as_str();
                return Ok(String::from_str(vis)
                    .concat(" ")
                    .concat(text)
                    .concat(r#"

#[no_mangle]
pub extern "C" fn dynspire_create(
    data_ptr: *const u8,
    data_len: usize,
) -> *mut std::ffi::c_void {
    let config = if data_ptr.is_null() || data_len == 0 {
        std::collections::HashMap::new()
    } else {
        let data = unsafe { std::slice::from_raw_parts(data_ptr, data_len) };
        dynspire::deserialize_kvmap(data)
    };
    match "#)
                    .concat(name)
                    .concat(r#"(&config) {
        Ok(state) => Box::into_raw(Box::new(state)) as *mut std::ffi::c_void,
        Err(e) => {
            eprintln!("spier init failed: {e}");
            std::ptr::null_mut()
        }
    }
}

#[no_mangle]
pub extern "C" fn dynspire_destroy(handle: *mut std::ffi::c_void) {
    if !handle.is_null() {
        unsafe {
            drop(Box::from_raw(handle as *mut "#)
                    .concat(state)
                    .concat(r#"));
        }
    }
}
"#));
            }
        }
    }
    Err(String::from_str("init function must return Result<StateType, String>"))
}

} // verus!
