//! The Rust generator: from an interface to Rust source.
//!
//! [`generate`] produces one source file with everything an interface needs:
//! trait, types, operation enum, hash, client and spier dispatch macro. A
//! [`BuildContext`] keeps types that several interfaces share from being
//! emitted twice.
use vstd::prelude::*;
use vstd::string::{StrSliceExecFns, StringExecFns};

use crate::ast::{
    decls_model, fields_model, idl_hash, Decl, EnumDecl, EnumModel, FieldType, Interface,
    InterfaceModel, Method, MethodModel, ParamModel, StructDecl, StructModel, Ty, TypeDecl,
    VariantModel,
};
use crate::codec::{
    any_dynamic, codes, decl_dynamic, enum_has_dynamic_fields, epilogue_code, field_dynamic,
    field_patterns, find_type, flat_fields, gen_patterns, has_codec, is_settled, gen_read_decode,
    gen_read_result_receive, gen_write_encode, gen_write_out_epilogue, gen_write_return, lookup,
    read_code, result_read_code, settled, struct_has_dynamic_fields, write_code,
};
use crate::text::{
    char_to_upper, dec, decimal, lower_text, same, to_lower, to_upper, upper_text, upper_char,
};

verus! {

// ---------------------------------------------------------------------------
// Names
// ---------------------------------------------------------------------------

/// `snake_case` to `PascalCase`, for the first `n` characters: underscores go,
/// and the character that starts a word is put in upper case.
pub open spec fn pascal_prefix(s: Seq<char>, n: nat) -> Seq<char>
    decreases n,
{
    if n == 0 {
        Seq::empty()
    } else {
        let before = pascal_prefix(s, (n - 1) as nat);
        if s[n - 1] == '_' {
            before
        } else if n == 1 || s[n - 2] == '_' {
            before + upper_char(s[n - 1])
        } else {
            before.push(s[n - 1])
        }
    }
}

/// `snake_case` to `PascalCase`.
pub open spec fn pascal_case(s: Seq<char>) -> Seq<char> {
    pascal_prefix(s, s.len())
}

/// `snake_case` to `PascalCase`.
pub fn pascal(s: &str) -> (r: String)
    ensures
        r@ == pascal_case(s@),
{
    let n: usize = s.unicode_len();
    let mut out = String::new();
    let mut start = true;
    let mut i: usize = 0;
    while i < n
        invariant
            i <= n,
            n == s@.len(),
            start == (i == 0 || s@[i - 1] == '_'),
            out@ == pascal_prefix(s@, i as nat),
        decreases n - i,
    {
        let c = s.get_char(i);
        if c == '_' {
            start = true;
        } else if start {
            out = out.concat(char_to_upper(c).as_str());
            start = false;
        } else {
            out.push(c);
        }
        i = i + 1;
    }
    out
}

/// The name of the generated trait.
pub open spec fn trait_ident(name: Seq<char>) -> Seq<char> {
    name + "Engine"@
}

/// The name of the generated operation enum.
pub open spec fn op_ident(name: Seq<char>) -> Seq<char> {
    name + "Op"@
}

/// The name of the generated hash constant.
pub open spec fn hash_ident(name: Seq<char>) -> Seq<char> {
    let upper = upper_text(name);
    upper + "_IDL_HASH"@
}

/// The name of the generated client.
pub open spec fn client_ident(name: Seq<char>) -> Seq<char> {
    "DynSpire"@ + name
}

/// The name of the generated dispatch macro.
pub open spec fn macro_ident(name: Seq<char>) -> Seq<char> {
    let lower = lower_text(name);
    "impl_"@ + lower + "_spier"@
}

/// The name of the generated trait.
pub fn trait_name(iface: &Interface) -> (r: String)
    ensures
        r@ == trait_ident(iface@.name),
{
    let name = iface.name.as_str();
    String::from_str(name).concat("Engine")
}

/// The name of the generated operation enum.
pub fn op_name(iface: &Interface) -> (r: String)
    ensures
        r@ == op_ident(iface@.name),
{
    let name = iface.name.as_str();
    String::from_str(name).concat("Op")
}

/// The name of the generated hash constant.
pub fn hash_const_name(iface: &Interface) -> (r: String)
    ensures
        r@ == hash_ident(iface@.name),
{
    let upper = to_upper(iface.name.as_str());
    String::from_str(upper.as_str()).concat("_IDL_HASH")
}

/// The name of the generated client.
pub fn client_name(iface: &Interface) -> (r: String)
    ensures
        r@ == client_ident(iface@.name),
{
    let name = iface.name.as_str();
    String::from_str("DynSpire").concat(name)
}

/// The name of the generated dispatch macro.
pub fn spier_macro_name(iface: &Interface) -> (r: String)
    ensures
        r@ == macro_ident(iface@.name),
{
    let lower = to_lower(iface.name.as_str());
    String::from_str("impl_").concat(lower.as_str()).concat("_spier")
}

// ---------------------------------------------------------------------------
// Types that are emitted once
// ---------------------------------------------------------------------------

/// The canonical form under which `name` has been emitted.
pub open spec fn emitted(seen: Seq<(Seq<char>, Seq<char>)>, name: Seq<char>) -> Option<Seq<char>>
    decreases seen.len(),
{
    if seen.len() == 0 {
        None
    } else if seen.last().0 == name {
        Some(seen.last().1)
    } else {
        emitted(seen.drop_last(), name)
    }
}

/// Which types have been emitted, by name and canonical form, across several
/// builds. A type that is declared again with the same content is skipped, one
/// with other content is a conflict.
pub struct BuildContext {
    seen: Vec<(String, String)>,
}

impl View for BuildContext {
    type V = Seq<(Seq<char>, Seq<char>)>;

    closed spec fn view(&self) -> Seq<(Seq<char>, Seq<char>)> {
        Seq::new(self.seen@.len(), |i: int| (self.seen@[i].0@, self.seen@[i].1@))
    }
}

/// The message of a conflict.
pub open spec fn conflict_message(name: Seq<char>, was: Seq<char>, now: Seq<char>) -> Seq<char> {
    "dynspire-codegen: conflicting type `"@
        + name
        + "`: previously defined as `"@
        + was
        + "`, now `"@
        + now
        + "`"@
}

impl BuildContext {
    /// A context in which nothing has been emitted.
    pub fn new() -> (r: BuildContext)
        ensures
            r@ == Seq::<(Seq<char>, Seq<char>)>::empty(),
    {
        let r = BuildContext { seen: Vec::new() };
        assert(r@ =~= Seq::<(Seq<char>, Seq<char>)>::empty());
        r
    }

    /// Whether a type has been emitted already and is to be skipped. One that
    /// has not is registered; one that has, with other content, is a conflict.
    pub fn check_or_register(&mut self, name: &str, canonical: &str) -> (r: Result<bool, String>)
        ensures
            match emitted(old(self)@, name@) {
                None => final(self)@ == old(self)@.push((name@, canonical@)) && r == Ok::<
                    bool,
                    String,
                >(false),
                Some(was) => {
                    &&& final(self)@ == old(self)@
                    &&& was == canonical@ ==> r == Ok::<bool, String>(true)
                    &&& was != canonical@ ==> r is Err && r->Err_0@ == conflict_message(
                        name@,
                        was,
                        canonical@,
                    )
                },
            },
    {
        let mut i: usize = self.seen.len();
        assert(self@.take(i as int) =~= self@);
        while i > 0
            invariant
                i <= self.seen.len(),
                self@ == old(self)@,
                self@.len() == self.seen@.len(),
                emitted(self@, name@) == emitted(self@.take(i as int), name@),
            decreases i,
        {
            i = i - 1;
            assert(self@.take(i + 1).last() == self@[i as int]);
            assert(self@.take(i + 1).drop_last() =~= self@.take(i as int));
            if same(self.seen[i].0.as_str(), name) {
                let was = self.seen[i].1.as_str();
                if same(was, canonical) {
                    return Ok(true);
                }
                let now = canonical;
                return Err(String::from_str("dynspire-codegen: conflicting type `")
                    .concat(name)
                    .concat("`: previously defined as `")
                    .concat(was)
                    .concat("`, now `")
                    .concat(now)
                    .concat("`"));
            }
        }
        assert(emitted(self@, name@) is None);
        self.seen.push((String::from_str(name), String::from_str(canonical)));
        assert(self@ =~= old(self)@.push((name@, canonical@)));
        Ok(false)
    }
}

impl Default for BuildContext {
    fn default() -> (r: Self)
        ensures
            r@ == Seq::<(Seq<char>, Seq<char>)>::empty(),
    {
        BuildContext::new()
    }
}

/// What has been emitted after the first `n` declarations of an interface.
pub open spec fn seen_after(
    seen: Seq<(Seq<char>, Seq<char>)>,
    types: Seq<Decl>,
    n: nat,
) -> Seq<(Seq<char>, Seq<char>)>
    decreases n,
{
    if n == 0 {
        seen
    } else {
        let before = seen_after(seen, types, (n - 1) as nat);
        let d = types[n - 1];
        if emitted(before, d.name()) is None {
            before.push((d.name(), d.canonical()))
        } else {
            before
        }
    }
}

/// Whether declaration `i` conflicts with one of the same name before it.
pub open spec fn conflicts(seen: Seq<(Seq<char>, Seq<char>)>, types: Seq<Decl>, i: int) -> bool {
    emitted(seen_after(seen, types, i as nat), types[i].name()) matches Some(was)
        && was != types[i].canonical()
}

/// No declaration conflicts with one of the same name before it.
pub open spec fn agrees(seen: Seq<(Seq<char>, Seq<char>)>, types: Seq<Decl>) -> bool {
    forall|i: int| 0 <= i < types.len() ==> !#[trigger] conflicts(seen, types, i)
}

/// The declaration at `i` is the first that conflicts, with the message `msg`.
pub open spec fn is_first_conflict(
    seen: Seq<(Seq<char>, Seq<char>)>,
    types: Seq<Decl>,
    i: int,
    msg: Seq<char>,
) -> bool {
    &&& 0 <= i < types.len()
    &&& conflicts(seen, types, i)
    &&& forall|j: int| 0 <= j < i ==> !#[trigger] conflicts(seen, types, j)
    &&& msg == conflict_message(
        types[i].name(),
        emitted(seen_after(seen, types, i as nat), types[i].name())->Some_0,
        types[i].canonical(),
    )
}

/// A declaration conflicts: the first that does is named by `msg`, and those
/// before it have been registered in `after`.
pub open spec fn stops(
    seen: Seq<(Seq<char>, Seq<char>)>,
    types: Seq<Decl>,
    msg: Seq<char>,
    after: Seq<(Seq<char>, Seq<char>)>,
) -> bool {
    exists|i: int| #[trigger]
        is_first_conflict(seen, types, i, msg) && after == seen_after(seen, types, i as nat)
}

proof fn lemma_push_emitted(
    seen: Seq<(Seq<char>, Seq<char>)>,
    e: (Seq<char>, Seq<char>),
    name: Seq<char>,
)
    ensures
        emitted(seen.push(e), name) == if e.0 == name {
            Some(e.1)
        } else {
            emitted(seen, name)
        },
{
    assert(seen.push(e).drop_last() =~= seen);
}

proof fn lemma_seen_steps(
    seen: Seq<(Seq<char>, Seq<char>)>,
    types: Seq<Decl>,
    i: nat,
    n: nat,
    name: Seq<char>,
)
    requires
        i <= n <= types.len(),
        emitted(seen_after(seen, types, i), name) is Some,
    ensures
        emitted(seen_after(seen, types, n), name) == emitted(seen_after(seen, types, i), name),
    decreases n - i,
{
    if i < n {
        lemma_seen_steps(seen, types, i, (n - 1) as nat, name);
        lemma_push_emitted(
            seen_after(seen, types, (n - 1) as nat),
            (types[n - 1].name(), types[n - 1].canonical()),
            name,
        );
    }
}

/// After an interface has been built, each of its declarations is emitted under
/// its name with its content: building the same declarations again emits none
/// of them and finds no conflict.
pub proof fn built_types_are_skipped(seen: Seq<(Seq<char>, Seq<char>)>, types: Seq<Decl>, i: int)
    requires
        agrees(seen, types),
        0 <= i < types.len(),
    ensures
        emitted(seen_after(seen, types, types.len()), types[i].name()) == Some(types[i].canonical()),
{
    let before = seen_after(seen, types, i as nat);
    let d = types[i];
    assert(!conflicts(seen, types, i));
    lemma_push_emitted(before, (d.name(), d.canonical()), d.name());
    assert(emitted(seen_after(seen, types, (i + 1) as nat), d.name()) == Some(d.canonical()));
    lemma_seen_steps(seen, types, (i + 1) as nat, types.len(), d.name());
}

// ---------------------------------------------------------------------------
// Trait
// ---------------------------------------------------------------------------

/// The receiver and the first `n` parameters of a signature.
pub open spec fn signature_params(ps: Seq<ParamModel>, n: nat, input: bool) -> Seq<char>
    decreases n,
{
    if n == 0 {
        "&self"@
    } else {
        let p = ps[n - 1];
        signature_params(ps, (n - 1) as nat, input) + ", "@ + p.name + ": "@ + (if input {
            p.ty.rust_input_type()
        } else {
            p.ty.rust_type()
        })
    }
}

fn gen_signature_params(m: &Method, input: bool) -> (r: String)
    ensures
        r@ == signature_params(m@.params, m@.params.len(), input),
{
    let mut s = String::from_str("&self");
    let mut i: usize = 0;
    while i < m.params.len()
        invariant
            i <= m.params.len(),
            s@ == signature_params(m@.params, i as nat, input),
        decreases m.params.len() - i,
    {
        let p = &m.params[i];
        assert(m@.params[i as int] == p@);
        let ty = if input {
            p.ty.rust_input_type()
        } else {
            p.ty.rust_type()
        };
        s = s.concat(", ").concat(p.name.as_str()).concat(": ").concat(ty.as_str());
        i = i + 1;
    }
    s
}

/// The trait up to its first `n` methods.
pub open spec fn trait_methods(iface: InterfaceModel, n: nat) -> Seq<char>
    decreases n,
{
    if n == 0 {
        let tn = trait_ident(iface.name);
        "pub trait "@ + tn + ": Send + Sync {\n"@
    } else {
        let m = iface.methods[n - 1];
        let name = m.name;
        let params = signature_params(m.params, m.params.len(), true);
        let ret = m.return_type.rust_output_type();
        trait_methods(iface, (n - 1) as nat) + ("    fn "@
            + name
            + "("@
            + params
            + ") -> Result<"@
            + ret
            + ", String>;\n"@)
    }
}

/// The generated trait.
pub open spec fn trait_code(iface: InterfaceModel) -> Seq<char> {
    trait_methods(iface, iface.methods.len()) + "}\n\n"@
}

/// The generated trait: one method for each method of the interface.
pub fn gen_trait(iface: &Interface) -> (r: String)
    ensures
        r@ == trait_code(iface@),
{
    let tn = trait_name(iface);
    let mut out = String::from_str("pub trait ").concat(tn.as_str()).concat(": Send + Sync {\n");
    let mut i: usize = 0;
    while i < iface.methods.len()
        invariant
            i <= iface.methods.len(),
            out@ == trait_methods(iface@, i as nat),
        decreases iface.methods.len() - i,
    {
        let m = &iface.methods[i];
        assert(iface@.methods[i as int] == m@);
        let name = m.name.as_str();
        let params = gen_signature_params(m, true);
        let ret = m.return_type.rust_output_type();
        let piece = String::from_str("    fn ")
            .concat(name)
            .concat("(")
            .concat(params.as_str())
            .concat(") -> Result<")
            .concat(ret.as_str())
            .concat(", String>;\n");
        out = out.concat(piece.as_str());
        i = i + 1;
    }
    out.concat("}\n\n")
}

// ---------------------------------------------------------------------------
// Types
// ---------------------------------------------------------------------------

/// The definition of a struct up to its first `n` fields.
pub open spec fn struct_fields(s: StructModel, n: nat) -> Seq<char>
    decreases n,
{
    if n == 0 {
        let name = s.name;
        r#"#[repr(C)]
#[derive(Clone, Debug, PartialEq)]
pub struct "#@
            + name
            + " {\n"@
    } else {
        let fname = s.fields[n - 1].0;
        let ft = s.fields[n - 1].1.rust_field_type();
        struct_fields(s, (n - 1) as nat) + ("    pub "@ + fname + ": "@ + ft + ",\n"@)
    }
}

/// The generated definition of a struct.
pub open spec fn struct_code(s: StructModel) -> Seq<char> {
    struct_fields(s, s.fields.len()) + "}\n\n"@
}

/// The definition of a struct, in C layout.
pub fn gen_struct_def(s: &StructDecl) -> (r: String)
    ensures
        r@ == struct_code(s@),
{
    let name = s.name.as_str();
    let mut out = String::from_str(r#"#[repr(C)]
#[derive(Clone, Debug, PartialEq)]
pub struct "#)
        .concat(name)
        .concat(" {\n");
    let mut i: usize = 0;
    while i < s.fields.len()
        invariant
            i <= s.fields.len(),
            out@ == struct_fields(s@, i as nat),
        decreases s.fields.len() - i,
    {
        assert(s@.fields[i as int] == (s.fields@[i as int].0@, s.fields@[i as int].1@));
        let fname = s.fields[i].0.as_str();
        let ft = s.fields[i].1.rust_field_type();
        let piece = String::from_str("    pub ")
            .concat(fname)
            .concat(": ")
            .concat(ft.as_str())
            .concat(",\n");
        out = out.concat(piece.as_str());
        i = i + 1;
    }
    out.concat("}\n\n")
}

/// The Rust types of the first `n` fields of a variant.
pub open spec fn field_type_list(fs: Seq<Ty>, n: nat) -> Seq<char>
    decreases n,
{
    if n == 0 {
        Seq::empty()
    } else if n == 1 {
        fs[0].rust_field_type()
    } else {
        field_type_list(fs, (n - 1) as nat) + ", "@ + fs[n - 1].rust_field_type()
    }
}

/// Whether one of the first `n` variants has a field.
pub open spec fn has_fields(vs: Seq<VariantModel>, n: nat) -> bool {
    exists|i: int| 0 <= i < n && (#[trigger] vs[i]).fields.len() > 0
}

/// The definition of an enum up to its first `n` variants.
pub open spec fn enum_variants(e: EnumModel, n: nat) -> Seq<char>
    decreases n,
{
    if n == 0 {
        let name = e.name;
        let repr = if has_fields(e.variants, e.variants.len()) {
            "#[repr(C, u32)]"@
        } else {
            "#[repr(u32)]"@
        };
        repr
            + r#"
#[derive(Clone, Debug, PartialEq)]
pub enum "#@
            + name
            + " {\n"@
    } else {
        let vn = e.variants[n - 1].name;
        let fs = e.variants[n - 1].fields;
        let fields = field_type_list(fs, fs.len());
        enum_variants(e, (n - 1) as nat) + (if fs.len() == 0 {
            "    "@ + vn + ",\n"@
        } else {
            "    "@ + vn + "("@ + fields + "),\n"@
        })
    }
}

/// The generated definition of an enum.
pub open spec fn enum_code(e: EnumModel) -> Seq<char> {
    enum_variants(e, e.variants.len()) + "}\n\n"@
}

/// The definition of an enum: in C layout if a variant has fields, else as a
/// `u32`.
pub fn gen_enum_def(e: &EnumDecl) -> (r: String)
    ensures
        r@ == enum_code(e@),
{
    let mut fielded = false;
    let mut k: usize = 0;
    while k < e.variants.len()
        invariant
            k <= e.variants.len(),
            fielded == has_fields(e@.variants, k as nat),
        decreases e.variants.len() - k,
    {
        assert(e@.variants[k as int] == e.variants@[k as int]@);
        if e.variants[k].fields.len() > 0 {
            fielded = true;
        }
        k = k + 1;
        assert(fielded == has_fields(e@.variants, k as nat));
    }
    let name = e.name.as_str();
    let repr = if fielded {
        "#[repr(C, u32)]"
    } else {
        "#[repr(u32)]"
    };
    let mut out = String::from_str(repr)
        .concat(r#"
#[derive(Clone, Debug, PartialEq)]
pub enum "#)
        .concat(name)
        .concat(" {\n");
    let mut i: usize = 0;
    while i < e.variants.len()
        invariant
            i <= e.variants.len(),
            out@ == enum_variants(e@, i as nat),
        decreases e.variants.len() - i,
    {
        let v = &e.variants[i];
        assert(e@.variants[i as int] == v@);
        let vn = v.name.as_str();
        let piece = if v.fields.len() == 0 {
            String::from_str("    ").concat(vn).concat(",\n")
        } else {
            let mut fields = String::new();
            let mut j: usize = 0;
            while j < v.fields.len()
                invariant
                    j <= v.fields.len(),
                    fields@ == field_type_list(v@.fields, j as nat),
                decreases v.fields.len() - j,
            {
                let one = v.fields[j].rust_field_type();
                if j == 0 {
                    fields = one;
                } else {
                    fields = fields.concat(", ").concat(one.as_str());
                }
                j = j + 1;
            }
            String::from_str("    ").concat(vn).concat("(").concat(fields.as_str()).concat("),\n")
        };
        out = out.concat(piece.as_str());
        i = i + 1;
    }
    out.concat("}\n\n")
}

// ---------------------------------------------------------------------------
// Drop functions
// ---------------------------------------------------------------------------

/// Whether a declared type holds a heap buffer.
pub open spec fn named_dynamic(name: Seq<char>, types: Seq<Decl>) -> bool {
    match lookup(types, name) {
        Some(d) => decl_dynamic(d, types) == Some(true),
        None => false,
    }
}

/// The statement that releases what the optional field `fname`, whose value is
/// of type `inner`, owns if it is present.
pub open spec fn option_release(
    prefix: Seq<char>,
    fname: Seq<char>,
    inner: Ty,
    types: Seq<Decl>,
) -> Seq<char>
    decreases inner,
{
    match inner {
        Ty::DString | Ty::String => "        if "@
            + prefix
            + fname
            + ".tag != 0 {\n            dynspire::managed::dynspire_release("@
            + prefix
            + fname
            + r#".value.ptr as *mut u8);
        }
"#@,
        Ty::DVec(_) | Ty::Vec(_) => "        if "@
            + prefix
            + fname
            + ".tag != 0 {\n            dynspire::managed::dynspire_release("@
            + prefix
            + fname
            + r#".value.ptr as *mut u8);
        }
"#@,
        Ty::Named(name) => if named_dynamic(name, types) {
            "        if "@
                + prefix
                + fname
                + ".tag != 0 { drop_"@
                + name
                + "(&"@
                + prefix
                + fname
                + ".value as *const "@
                + name
                + " as *mut core::ffi::c_void); }\n"@
        } else {
            Seq::empty()
        },
        Ty::DOption(t) => {
            let inner_release = option_release(prefix, fname + ".value"@, *t, types);
            if inner_release.len() == 0 {
                Seq::empty()
            } else {
                "        if "@ + prefix + fname + ".tag != 0 {\n"@ + inner_release + "        }\n"@
            }
        },
        Ty::Option(t) => {
            let inner_release = option_release(prefix, fname + ".value"@, *t, types);
            if inner_release.len() == 0 {
                Seq::empty()
            } else {
                "        if "@ + prefix + fname + ".tag != 0 {\n"@ + inner_release + "        }\n"@
            }
        },
        _ => Seq::empty(),
    }
}

/// The statement that releases what the field `fname`, of type `ft`, owns;
/// empty if it owns nothing.
pub open spec fn release_code(
    prefix: Seq<char>,
    fname: Seq<char>,
    ft: Ty,
    types: Seq<Decl>,
) -> Seq<char> {
    match ft {
        Ty::DString | Ty::String => "        dynspire::managed::dynspire_release("@
            + prefix
            + fname
            + ".ptr as *mut u8);\n"@,
        Ty::DVec(_) | Ty::Vec(_) => "        dynspire::managed::dynspire_release("@
            + prefix
            + fname
            + ".ptr as *mut u8);\n"@,
        Ty::DOption(inner) => option_release(prefix, fname, *inner, types),
        Ty::Option(inner) => option_release(prefix, fname, *inner, types),
        Ty::Named(name) => if named_dynamic(name, types) {
            "        drop_"@
                + name
                + "(&"@
                + prefix
                + fname
                + " as *const "@
                + name
                + " as *mut core::ffi::c_void);\n"@
        } else {
            Seq::empty()
        },
        _ => Seq::empty(),
    }
}

/// The statements that release what the first `n` fields own.
pub open spec fn releases_code(
    prefix: Seq<char>,
    fs: Seq<(Seq<char>, Ty)>,
    n: nat,
    types: Seq<Decl>,
) -> Seq<char>
    decreases n,
{
    if n == 0 {
        Seq::empty()
    } else {
        releases_code(prefix, fs, (n - 1) as nat, types) + release_code(
            prefix,
            fs[n - 1].0,
            fs[n - 1].1,
            types,
        )
    }
}

proof fn lemma_deeper(ft: Ty, types: Seq<Decl>, d: nat)
    requires
        field_dynamic(ft, types, d) is Some,
    ensures
        field_dynamic(ft, types, d + 1) == field_dynamic(ft, types, d),
    decreases d, ft, 0nat,
{
    match ft {
        Ty::DOption(inner) => lemma_deeper(*inner, types, d),
        Ty::Option(inner) => lemma_deeper(*inner, types, d),
        Ty::Named(name) => {
            if let Some(decl) = lookup(types, name) {
                if !(decl is Opaque) {
                    let fs = flat_fields(decl);
                    lemma_any_deeper(fs, fs.len(), types, (d - 1) as nat);
                }
            }
        },
        _ => {},
    }
}

proof fn lemma_any_deeper(fs: Seq<Ty>, n: nat, types: Seq<Decl>, d: nat)
    requires
        any_dynamic(fs, n, types, d) is Some,
    ensures
        any_dynamic(fs, n, types, d + 1) == any_dynamic(fs, n, types, d),
    decreases d, fs, n,
{
    if 0 < n <= fs.len() {
        lemma_deeper(fs[fs.len() - n], types, d);
        if field_dynamic(fs[fs.len() - n], types, d) == Some(false) {
            lemma_any_deeper(fs, (n - 1) as nat, types, d);
        }
    }
}

proof fn lemma_option_released(prefix: Seq<char>, fname: Seq<char>, inner: Ty, types: Seq<Decl>)
    requires
        field_dynamic(inner, types, types.len()) is Some,
    ensures
        option_release(prefix, fname, inner, types).len() > 0 <==> field_dynamic(
            inner,
            types,
            types.len(),
        ) == Some(true),
    decreases inner,
{
    reveal_strlit("        if ");
    match inner {
        Ty::DOption(t) => lemma_option_released(prefix, fname + ".value"@, *t, types),
        Ty::Option(t) => lemma_option_released(prefix, fname + ".value"@, *t, types),
        Ty::Named(name) => lemma_named_dynamic(name, types),
        _ => {},
    }
}

proof fn lemma_named_dynamic(name: Seq<char>, types: Seq<Decl>)
    requires
        field_dynamic(Ty::Named(name), types, types.len()) is Some,
    ensures
        named_dynamic(name, types) <==> field_dynamic(Ty::Named(name), types, types.len())
            == Some(true),
{
    if let Some(decl) = lookup(types, name) {
        let fs = flat_fields(decl);
        if !(decl is Opaque) {
            lemma_any_deeper(fs, fs.len(), types, (types.len() - 1) as nat);
        }
    }
}

/// A field is released exactly if it holds a heap buffer, in whatever type that
/// buffer lies.
pub proof fn released_exactly_if_dynamic(
    prefix: Seq<char>,
    fname: Seq<char>,
    ft: Ty,
    types: Seq<Decl>,
)
    requires
        field_dynamic(ft, types, types.len()) is Some,
    ensures
        release_code(prefix, fname, ft, types).len() > 0 <==> field_dynamic(
            ft,
            types,
            types.len(),
        ) == Some(true),
{
    reveal_strlit("        dynspire::managed::dynspire_release(");
    reveal_strlit("        drop_");
    match ft {
        Ty::DOption(t) => lemma_option_released(prefix, fname, *t, types),
        Ty::Option(t) => lemma_option_released(prefix, fname, *t, types),
        Ty::Named(name) => lemma_named_dynamic(name, types),
        _ => {},
    }
}

fn is_named_dynamic(name: &str, types: &[TypeDecl]) -> (r: bool)
    requires
        settled(decls_model(types@)),
    ensures
        r == named_dynamic(name@, decls_model(types@)),
{
    match find_type(types, name) {
        Some(TypeDecl::Struct(s)) => match struct_has_dynamic_fields(s, types, types.len()) {
            Some(b) => b,
            None => false,
        },
        Some(TypeDecl::Enum(e)) => match enum_has_dynamic_fields(e, types, types.len()) {
            Some(b) => b,
            None => false,
        },
        _ => false,
    }
}

fn gen_option_release(prefix: &str, fname: &str, inner: &FieldType, types: &[TypeDecl]) -> (r:
    String)
    requires
        settled(decls_model(types@)),
    ensures
        r@ == option_release(prefix@, fname@, inner@, decls_model(types@)),
    decreases inner,
{
    match inner {
        FieldType::DString | FieldType::String => String::from_str("        if ")
            .concat(prefix)
            .concat(fname)
            .concat(".tag != 0 {\n            dynspire::managed::dynspire_release(")
            .concat(prefix)
            .concat(fname)
            .concat(r#".value.ptr as *mut u8);
        }
"#),
        FieldType::DVec(_) | FieldType::Vec(_) => String::from_str("        if ")
            .concat(prefix)
            .concat(fname)
            .concat(".tag != 0 {\n            dynspire::managed::dynspire_release(")
            .concat(prefix)
            .concat(fname)
            .concat(r#".value.ptr as *mut u8);
        }
"#),
        FieldType::Named(name) => {
            let name = name.as_str();
            if is_named_dynamic(name, types) {
                String::from_str("        if ")
                    .concat(prefix)
                    .concat(fname)
                    .concat(".tag != 0 { drop_")
                    .concat(name)
                    .concat("(&")
                    .concat(prefix)
                    .concat(fname)
                    .concat(".value as *const ")
                    .concat(name)
                    .concat(" as *mut core::ffi::c_void); }\n")
            } else {
                String::new()
            }
        },
        FieldType::DOption(t) | FieldType::Option(t) => {
            let value = String::from_str(fname).concat(".value");
            let inner_release = gen_option_release(prefix, value.as_str(), t, types);
            if inner_release.as_str().is_empty() {
                String::new()
            } else {
                String::from_str("        if ")
                    .concat(prefix)
                    .concat(fname)
                    .concat(".tag != 0 {\n")
                    .concat(inner_release.as_str())
                    .concat("        }\n")
            }
        },
        _ => String::new(),
    }
}

fn gen_release(prefix: &str, fname: &str, ft: &FieldType, types: &[TypeDecl]) -> (r: String)
    requires
        settled(decls_model(types@)),
    ensures
        r@ == release_code(prefix@, fname@, ft@, decls_model(types@)),
{
    match ft {
        FieldType::DString | FieldType::String => String::from_str("        dynspire::managed::dynspire_release(")
            .concat(prefix)
            .concat(fname)
            .concat(".ptr as *mut u8);\n"),
        FieldType::DVec(_) | FieldType::Vec(_) => String::from_str("        dynspire::managed::dynspire_release(")
            .concat(prefix)
            .concat(fname)
            .concat(".ptr as *mut u8);\n"),
        FieldType::DOption(inner) | FieldType::Option(inner) => gen_option_release(
            prefix,
            fname,
            inner,
            types,
        ),
        FieldType::Named(name) => {
            let name = name.as_str();
            if is_named_dynamic(name, types) {
                String::from_str("        drop_")
                    .concat(name)
                    .concat("(&")
                    .concat(prefix)
                    .concat(fname)
                    .concat(" as *const ")
                    .concat(name)
                    .concat(" as *mut core::ffi::c_void);\n")
            } else {
                String::new()
            }
        },
        _ => String::new(),
    }
}

/// The statements of a drop function: one that releases what it owns for each
/// field that holds a heap buffer.
pub fn gen_field_releases(
    prefix: &str,
    fields: &Vec<(String, FieldType)>,
    types: &[TypeDecl],
) -> (r: String)
    requires
        settled(decls_model(types@)),
    ensures
        r@ == releases_code(
            prefix@,
            fields_model(fields@),
            fields@.len(),
            decls_model(types@),
        ),
{
    let mut out = String::new();
    let mut i: usize = 0;
    while i < fields.len()
        invariant
            i <= fields.len(),
            settled(decls_model(types@)),
            out@ == releases_code(prefix@, fields_model(fields@), i as nat, decls_model(types@)),
        decreases fields.len() - i,
    {
        let piece = gen_release(prefix, fields[i].0.as_str(), &fields[i].1, types);
        out = out.concat(piece.as_str());
        i = i + 1;
    }
    out
}

/// The drop function of a struct.
pub open spec fn struct_drop_code(s: StructModel, types: Seq<Decl>) -> Seq<char> {
    let name = s.name;
    let releases = releases_code("(*__s)."@, s.fields, s.fields.len(), types);
    "unsafe extern \"C\" fn drop_"@
        + name
        + "(ptr: *mut core::ffi::c_void) {\n    let __s = unsafe { &mut *(ptr as *mut "@
        + name
        + ") };\n"@
        + releases
        + "}\n\n"@
}

/// The drop function of a struct: it releases every buffer that a field owns.
pub fn gen_drop_fn(s: &StructDecl, types: &[TypeDecl]) -> (r: String)
    requires
        settled(decls_model(types@)),
    ensures
        r@ == struct_drop_code(s@, decls_model(types@)),
{
    let name = s.name.as_str();
    let releases = gen_field_releases("(*__s).", &s.fields, types);
    String::from_str("unsafe extern \"C\" fn drop_")
        .concat(name)
        .concat("(ptr: *mut core::ffi::c_void) {\n    let __s = unsafe { &mut *(ptr as *mut ")
        .concat(name)
        .concat(") };\n")
        .concat(releases.as_str())
        .concat("}\n\n")
}

/// The fields of a variant under the names that a pattern binds them to.
pub open spec fn bound_fields(fs: Seq<Ty>) -> Seq<(Seq<char>, Ty)> {
    Seq::new(fs.len(), |i: int| ("__f"@ + dec(i as nat), fs[i]))
}

/// The arms of an enum's drop function for its first `n` variants: those that
/// own something.
pub open spec fn drop_arms_code(e: EnumModel, n: nat, types: Seq<Decl>) -> Seq<char>
    decreases n,
{
    if n == 0 {
        Seq::empty()
    } else {
        let name = e.name;
        let vn = e.variants[n - 1].name;
        let fs = e.variants[n - 1].fields;
        let binds_str = field_patterns(false, fs.len());
        let releases = releases_code(Seq::empty(), bound_fields(fs), fs.len(), types);
        let before = drop_arms_code(e, (n - 1) as nat, types);
        if releases.len() == 0 {
            before
        } else {
            before + ("        "@
                + name
                + "::"@
                + vn
                + "("@
                + binds_str
                + ") => {\n"@
                + releases
                + "        }\n"@)
        }
    }
}

/// The drop function of an enum; empty if no variant owns anything.
pub open spec fn enum_drop_code(e: EnumModel, types: Seq<Decl>) -> Seq<char> {
    let name = e.name;
    let arms = drop_arms_code(e, e.variants.len(), types);
    if arms.len() == 0 {
        Seq::empty()
    } else {
        "unsafe extern \"C\" fn drop_"@
            + name
            + "(ptr: *mut core::ffi::c_void) {\n    let __s = unsafe { &mut *(ptr as *mut "@
            + name
            + r#") };
    match unsafe { core::ptr::read(__s) } {
"#@
            + arms
            + r#"    }
}

"#@
    }
}

/// The drop function of an enum: it releases what the fields of the variant at
/// hand own.
pub fn gen_enum_drop_fn(e: &EnumDecl, types: &[TypeDecl]) -> (r: String)
    requires
        settled(decls_model(types@)),
    ensures
        r@ == enum_drop_code(e@, decls_model(types@)),
{
    let ghost tm = decls_model(types@);
    let name = e.name.as_str();
    let mut arms = String::new();
    let mut i: usize = 0;
    while i < e.variants.len()
        invariant
            i <= e.variants.len(),
            tm == decls_model(types@),
            settled(tm),
            name@ == e@.name,
            arms@ == drop_arms_code(e@, i as nat, tm),
        decreases e.variants.len() - i,
    {
        let v = &e.variants[i];
        assert(e@.variants[i as int] == v@);
        let vn = v.name.as_str();
        let binds_str = gen_patterns(false, v.fields.len());
        let mut bound: Vec<(String, FieldType)> = Vec::new();
        let mut j: usize = 0;
        while j < v.fields.len()
            invariant
                j <= v.fields.len(),
                bound@.len() == j,
                forall|k: int|
                    0 <= k < j ==> (#[trigger] bound@[k]).0@ == "__f"@ + dec(k as nat)
                        && bound@[k].1@ == v.fields@[k]@,
            decreases v.fields.len() - j,
        {
            bound.push((String::from_str("__f")
                .concat(decimal(j as u64).as_str()), v.fields[j].clone()));
            j = j + 1;
        }
        assert(fields_model(bound@) =~= bound_fields(v@.fields));
        let none = String::new();
        assert(none@ =~= Seq::<char>::empty());
        let releases = gen_field_releases(none.as_str(), &bound, types);
        if !releases.as_str().is_empty() {
            let piece = String::from_str("        ")
                .concat(name)
                .concat("::")
                .concat(vn)
                .concat("(")
                .concat(binds_str.as_str())
                .concat(") => {\n")
                .concat(releases.as_str())
                .concat("        }\n");
            arms = arms.concat(piece.as_str());
        }
        i = i + 1;
    }
    if arms.as_str().is_empty() {
        String::new()
    } else {
        String::from_str("unsafe extern \"C\" fn drop_")
            .concat(name)
            .concat("(ptr: *mut core::ffi::c_void) {\n    let __s = unsafe { &mut *(ptr as *mut ")
            .concat(name)
            .concat(r#") };
    match unsafe { core::ptr::read(__s) } {
"#)
            .concat(arms.as_str())
            .concat(r#"    }
}

"#)
    }
}

/// What is emitted for one declaration.
pub open spec fn decl_code(d: Decl, types: Seq<Decl>) -> Seq<char> {
    match d {
        Decl::Struct(s) => if s.fields.len() == 0 {
            Seq::empty()
        } else if decl_dynamic(d, types) == Some(true) {
            struct_code(s) + struct_drop_code(s, types)
        } else {
            struct_code(s)
        },
        Decl::Enum(e) => if decl_dynamic(d, types) == Some(true) {
            enum_code(e) + enum_drop_code(e, types)
        } else {
            enum_code(e)
        },
        Decl::Opaque(_) => Seq::empty(),
    }
}

/// What is emitted for the first `n` declarations: those that have not been
/// emitted before.
pub open spec fn types_code(
    seen: Seq<(Seq<char>, Seq<char>)>,
    types: Seq<Decl>,
    n: nat,
) -> Seq<char>
    decreases n,
{
    if n == 0 {
        Seq::empty()
    } else {
        let before = types_code(seen, types, (n - 1) as nat);
        let d = types[n - 1];
        if emitted(seen_after(seen, types, (n - 1) as nat), d.name()) is Some {
            before
        } else {
            before + decl_code(d, types)
        }
    }
}

fn gen_decl(d: &TypeDecl, types: &[TypeDecl]) -> (r: String)
    requires
        settled(decls_model(types@)),
        decl_dynamic(d@, decls_model(types@)) is Some,
    ensures
        r@ == decl_code(d@, decls_model(types@)),
{
    match d {
        TypeDecl::Struct(s) => {
            if s.fields.len() == 0 {
                String::new()
            } else {
                match struct_has_dynamic_fields(s, types, types.len()) {
                    Some(true) => gen_struct_def(s).concat(gen_drop_fn(s, types).as_str()),
                    _ => gen_struct_def(s),
                }
            }
        },
        TypeDecl::Enum(e) => match enum_has_dynamic_fields(e, types, types.len()) {
            Some(true) => gen_enum_def(e).concat(gen_enum_drop_fn(e, types).as_str()),
            _ => gen_enum_def(e),
        },
        TypeDecl::Opaque(_) => String::new(),
    }
}

/// The definitions of the interface's types that have not been emitted before.
/// Fails on the first declaration that conflicts with an emitted one; what
/// stands before it is then registered.
pub fn gen_types(iface: &Interface, ctx: &mut BuildContext) -> (r: Result<String, String>)
    requires
        settled(iface@.types),
    ensures
        match r {
            Ok(code) => {
                &&& agrees(old(ctx)@, iface@.types)
                &&& code@ == types_code(old(ctx)@, iface@.types, iface@.types.len())
                &&& final(ctx)@ == seen_after(old(ctx)@, iface@.types, iface@.types.len())
            },
            Err(msg) => stops(old(ctx)@, iface@.types, msg@, final(ctx)@),
        },
{
    let ghost seen = ctx@;
    let ghost types = iface@.types;
    let mut out = String::new();
    let mut i: usize = 0;
    while i < iface.types.len()
        invariant
            i <= iface.types.len(),
            types == iface@.types,
            settled(types),
            seen == old(ctx)@,
            ctx@ == seen_after(seen, types, i as nat),
            forall|j: int| 0 <= j < i ==> !#[trigger] conflicts(seen, types, j),
            out@ == types_code(seen, types, i as nat),
        decreases iface.types.len() - i,
    {
        let d = &iface.types[i];
        assert(types[i as int] == d@);
        let canonical = d.canonical();
        match ctx.check_or_register(d.name(), canonical.as_str()) {
            Err(msg) => {
                proof {
                    assert(conflicts(seen, types, i as int));
                    assert(is_first_conflict(old(ctx)@, iface@.types, i as int, msg@));
                    assert(ctx@ == seen_after(old(ctx)@, iface@.types, (i as int) as nat));
                }
                return Err(msg);
            },
            Ok(skip) => {
                assert(!conflicts(seen, types, i as int));
                if !skip {
                    let piece = gen_decl(d, iface.types.as_slice());
                    out = out.concat(piece.as_str());
                }
            },
        }
        i = i + 1;
    }
    Ok(out)
}

proof fn lemma_rebuild_prefix(seen: Seq<(Seq<char>, Seq<char>)>, types: Seq<Decl>, n: nat)
    requires
        agrees(seen, types),
        n <= types.len(),
    ensures
        ({
            let after = seen_after(seen, types, types.len());
            &&& seen_after(after, types, n) == after
            &&& types_code(after, types, n) == Seq::<char>::empty()
        }),
    decreases n,
{
    if n > 0 {
        lemma_rebuild_prefix(seen, types, (n - 1) as nat);
        built_types_are_skipped(seen, types, n - 1);
    }
}

/// Building the declarations of an interface a second time emits none of them,
/// registers nothing and finds no conflict.
pub proof fn rebuild_emits_nothing(seen: Seq<(Seq<char>, Seq<char>)>, types: Seq<Decl>)
    requires
        agrees(seen, types),
    ensures
        ({
            let after = seen_after(seen, types, types.len());
            &&& agrees(after, types)
            &&& types_code(after, types, types.len()) == Seq::<char>::empty()
            &&& seen_after(after, types, types.len()) == after
        }),
{
    let after = seen_after(seen, types, types.len());
    lemma_rebuild_prefix(seen, types, types.len());
    assert forall|i: int| 0 <= i < types.len() implies !#[trigger] conflicts(after, types, i) by {
        lemma_rebuild_prefix(seen, types, i as nat);
        built_types_are_skipped(seen, types, i);
    }
}

// ---------------------------------------------------------------------------
// Operation enum
// ---------------------------------------------------------------------------

/// The variants of the operation enum for the first `n` methods.
pub open spec fn op_variants(ms: Seq<MethodModel>, n: nat) -> Seq<char>
    decreases n,
{
    if n == 0 {
        Seq::empty()
    } else {
        let i = n - 1;
        let pn = pascal_case(ms[i].name);
        if n == 1 {
            "    "@ + pn + " = "@ + dec(i as nat) + ","@
        } else {
            op_variants(ms, i as nat) + "\n"@ + ("    "@ + pn + " = "@ + dec(i as nat) + ","@)
        }
    }
}

/// The match arms of `from_u8` for the first `n` methods.
pub open spec fn op_arms(ms: Seq<MethodModel>, n: nat) -> Seq<char>
    decreases n,
{
    if n == 0 {
        Seq::empty()
    } else {
        let i = n - 1;
        let pn = pascal_case(ms[i].name);
        if n == 1 {
            "            "@ + dec(i as nat) + " => Some(Self::"@ + pn + "),"@
        } else {
            op_arms(ms, i as nat) + "\n"@ + ("            "@
                + dec(i as nat)
                + " => Some(Self::"@
                + pn
                + "),"@)
        }
    }
}

/// The generated operation enum: one variant for each method, numbered in
/// order.
pub open spec fn op_enum_code(iface: InterfaceModel) -> Seq<char> {
    let opn = op_ident(iface.name);
    let variants = op_variants(iface.methods, iface.methods.len());
    let arms = op_arms(iface.methods, iface.methods.len());
    r#"#[repr(u8)]
#[derive(Debug, Clone, Copy, PartialEq, Eq)]
pub enum "#@
        + opn
        + " {\n"@
        + variants
        + r#"
}

impl "#@
        + opn
        + r#" {
    pub fn from_u8(v: u8) -> Option<Self> {
        match v {
"#@
        + arms
        + r#"
            _ => None,
        }
    }
}

impl dynspire::SpierOp for "#@
        + opn
        + r#" {
    fn as_index(self) -> usize { self as usize }
}

"#@
}

/// The operation enum.
pub fn gen_op_enum(iface: &Interface) -> (r: String)
    ensures
        r@ == op_enum_code(iface@),
{
    let opn = op_name(iface);
    let mut variants = String::new();
    let mut arms = String::new();
    let mut i: usize = 0;
    while i < iface.methods.len()
        invariant
            i <= iface.methods.len(),
            variants@ == op_variants(iface@.methods, i as nat),
            arms@ == op_arms(iface@.methods, i as nat),
        decreases iface.methods.len() - i,
    {
        assert(iface@.methods[i as int] == iface.methods@[i as int]@);
        let pn = pascal(iface.methods[i].name.as_str());
        let variant = String::from_str("    ")
            .concat(pn.as_str())
            .concat(" = ")
            .concat(decimal(i as u64).as_str())
            .concat(",");
        let arm = String::from_str("            ")
            .concat(decimal(i as u64).as_str())
            .concat(" => Some(Self::")
            .concat(pn.as_str())
            .concat("),");
        if i == 0 {
            variants = variant;
            arms = arm;
        } else {
            variants = variants.concat("\n").concat(variant.as_str());
            arms = arms.concat("\n").concat(arm.as_str());
        }
        i = i + 1;
    }
    String::from_str(r#"#[repr(u8)]
#[derive(Debug, Clone, Copy, PartialEq, Eq)]
pub enum "#)
        .concat(opn.as_str())
        .concat(" {\n")
        .concat(variants.as_str())
        .concat(r#"
}

impl "#)
        .concat(opn.as_str())
        .concat(r#" {
    pub fn from_u8(v: u8) -> Option<Self> {
        match v {
"#)
        .concat(arms.as_str())
        .concat(r#"
            _ => None,
        }
    }
}

impl dynspire::SpierOp for "#)
        .concat(opn.as_str())
        .concat(r#" {
    fn as_index(self) -> usize { self as usize }
}

"#)
}

// ---------------------------------------------------------------------------
// Client
// ---------------------------------------------------------------------------

/// Every type of the method's signature has a codec.
pub open spec fn method_codes(m: MethodModel, types: Seq<Decl>) -> bool {
    &&& codes(m.return_type, types, types.len())
    &&& forall|j: int|
        0 <= j < m.params.len() ==> codes((#[trigger] m.params[j]).ty, types, types.len())
}

/// What the generators need of an interface: every type of a signature has a
/// codec, and no declared type holds itself by value.
pub open spec fn generatable(iface: InterfaceModel) -> bool {
    &&& settled(iface.types)
    &&& forall|i: int|
        0 <= i < iface.methods.len() ==> method_codes(#[trigger] iface.methods[i], iface.types)
}

/// Whether the generators can take the interface.
pub fn can_generate(iface: &Interface) -> (r: bool)
    ensures
        r == generatable(iface@),
{
    let types = iface.types.as_slice();
    if !is_settled(types) {
        return false;
    }
    let mut i: usize = 0;
    while i < iface.methods.len()
        invariant
            i <= iface.methods.len(),
            decls_model(types@) == iface@.types,
            types@.len() == iface@.types.len(),
            forall|k: int|
                0 <= k < i ==> method_codes(#[trigger] iface@.methods[k], iface@.types),
        decreases iface.methods.len() - i,
    {
        let m = &iface.methods[i];
        assert(iface@.methods[i as int] == m@);
        if !has_codec(&m.return_type, types, types.len()) {
            return false;
        }
        let mut j: usize = 0;
        while j < m.params.len()
            invariant
                i < iface.methods.len(),
                j <= m.params.len(),
                iface@.methods[i as int] == m@,
                decls_model(types@) == iface@.types,
                types@.len() == iface@.types.len(),
                forall|k: int|
                    0 <= k < j ==> codes(
                        (#[trigger] m@.params[k]).ty,
                        iface@.types,
                        iface@.types.len(),
                    ),
            decreases m.params.len() - j,
        {
            assert(m@.params[j as int] == m.params@[j as int]@);
            if !has_codec(&m.params[j].ty, types, types.len()) {
                return false;
            }
            j = j + 1;
        }
        i = i + 1;
    }
    true
}

/// The statements with which the client writes the first `k` parameters.
pub open spec fn tower_encode(ps: Seq<ParamModel>, k: nat, types: Seq<Decl>) -> Seq<char>
    decreases k,
{
    if k == 0 {
        Seq::empty()
    } else {
        let n = ps[k - 1].name;
        tower_encode(ps, (k - 1) as nat, types) + (if ps[k - 1].ty is OutU8Vec {
            "        let mut __ov_"@
                + n
                + ": dynspire::managed::DVec<u8> = dynspire::managed::DVec::<u8> { allocator: self.client.alloc_ptr(), ptr: std::ptr::null_mut(), len: 0, cap: 0 };\n__w.write_u64(&mut __ov_"@
                + n
                + " as *mut dynspire::managed::DVec<u8> as u64);\n"@
        } else {
            write_code(false, ps[k - 1].ty, n, "__w"@, types, types.len())
        })
    }
}

/// The statements with which the client copies back the native out-parameters
/// among the first `k`.
pub open spec fn tower_post(ps: Seq<ParamModel>, k: nat) -> Seq<char>
    decreases k,
{
    if k == 0 {
        Seq::empty()
    } else if ps[k - 1].ty is OutU8Vec {
        let n = ps[k - 1].name;
        tower_post(ps, (k - 1) as nat) + ("        if !__ov_"@
            + n
            + ".ptr.is_null() {\nlet __bytes = unsafe { core::slice::from_raw_parts(__ov_"@
            + n
            + ".ptr, __ov_"@
            + n
            + ".len) };\n"@
            + n
            + ".extend_from_slice(__bytes);\nunsafe { dynspire::managed::dynspire_release(__ov_"@
            + n
            + r#".ptr); }
}
"#@)
    } else {
        tower_post(ps, (k - 1) as nat)
    }
}

/// One method of the client.
pub open spec fn tower_method(m: MethodModel, opn: Seq<char>, types: Seq<Decl>) -> Seq<char> {
    let name = m.name;
    let params = signature_params(m.params, m.params.len(), false);
    let ret = m.return_type.rust_output_type();
    let encode_stmts = tower_encode(m.params, m.params.len(), types);
    let pn = pascal_case(m.name);
    let result_recv = result_read_code(m.return_type, "__r"@, types);
    let post_stmts = tower_post(m.params, m.params.len());
    "    fn "@
        + name
        + "("@
        + params
        + ") -> Result<"@
        + ret
        + r#", String> {
let mut __w = dynspire::slots::SlotWriter::new();
"#@
        + encode_stmts
        + "let mut __out = [0u64; dynspire::slots::MAX_OUT_SLOTS];\nself.client.dispatch("@
        + opn
        + "::"@
        + pn
        + r#" as usize, __w.as_slice(), &mut __out)?;
let mut __r = dynspire::slots::SlotReader::new(&__out);
let __result = "#@
        + result_recv
        + ";\n"@
        + post_stmts
        + r#"__result
}
"#@
}

/// The first `n` methods of the client.
pub open spec fn tower_methods(iface: InterfaceModel, n: nat) -> Seq<char>
    decreases n,
{
    if n == 0 {
        Seq::empty()
    } else {
        tower_methods(iface, (n - 1) as nat) + tower_method(
            iface.methods[n - 1],
            op_ident(iface.name),
            iface.types,
        )
    }
}

/// The generated client: it writes the parameters to slots, dispatches, and
/// receives the result.
pub open spec fn tower_code(iface: InterfaceModel) -> Seq<char> {
    let cn = client_ident(iface.name);
    let tn = trait_ident(iface.name);
    let methods = tower_methods(iface, iface.methods.len());
    "pub struct "@
        + cn
        + r#" {
    client: dynspire::DynSpireClient,
}

impl "#@
        + cn
        + r#" {
    pub fn connect(spier_name: &str, config: &std::collections::HashMap<String, String>, debug: bool) -> Result<Self, String> {
        let client = dynspire::DynSpireClient::connect(spier_name, &IDL, config, debug)?;
        Ok(Self { client })
    }

    pub fn connect_with_debug(spier_name: &str, config: &std::collections::HashMap<String, String>, debug: bool) -> Result<Self, String> {
        Self::connect(spier_name, config, debug)
    }

    /// Snapshot of the allocator's memory occupation (see
    /// `DynSpireClient::allocator_report`). Only meaningful when the client was
    /// created with `debug = true`.
    pub fn allocator_report(&self) -> dynspire::managed::DynSpireAllocatorReport {
        self.client.allocator_report()
    }

    /// Allocate an owning `DVec` in the host allocator (for passing owned
    /// buffers into spier methods that take a `DVec` parameter). Released when
    /// the returned guard is dropped.
    pub fn new_dvec<T: dynspire::managed::ReprC>(&self, cap: usize) -> dynspire::managed::OwnedDVec<T> {
        dynspire::managed::OwnedDVec::new_in(unsafe { &*self.client.alloc_ptr() }, cap)
    }

    /// Allocate an owning `DString` in the host allocator. Released when the
    /// returned guard is dropped.
    pub fn new_dstring(&self, s: &str) -> dynspire::managed::OwnedDString {
        dynspire::managed::OwnedDString::new_in(unsafe { &*self.client.alloc_ptr() }, s)
    }
}

impl "#@
        + tn
        + " for "@
        + cn
        + " {\n"@
        + methods
        + "}\n\n"@
}

fn gen_tower_method(m: &Method, opn: &str, types: &[TypeDecl]) -> (r: String)
    requires
        settled(decls_model(types@)),
        method_codes(m@, decls_model(types@)),
    ensures
        r@ == tower_method(m@, opn@, decls_model(types@)),
{
    let ghost tm = decls_model(types@);
    let name = m.name.as_str();
    let params = gen_signature_params(m, false);
    let ret = m.return_type.rust_output_type();
    let mut encode_stmts = String::new();
    let mut post_stmts = String::new();
    let mut i: usize = 0;
    while i < m.params.len()
        invariant
            i <= m.params.len(),
            tm == decls_model(types@),
            settled(tm),
            method_codes(m@, tm),
            encode_stmts@ == tower_encode(m@.params, i as nat, tm),
            post_stmts@ == tower_post(m@.params, i as nat),
        decreases m.params.len() - i,
    {
        let p = &m.params[i];
        assert(m@.params[i as int] == p@);
        let n = p.name.as_str();
        if matches!(p.ty, FieldType::OutU8Vec) {
            let enc = String::from_str("        let mut __ov_")
                .concat(n)
                .concat(": dynspire::managed::DVec<u8> = dynspire::managed::DVec::<u8> { allocator: self.client.alloc_ptr(), ptr: std::ptr::null_mut(), len: 0, cap: 0 };\n__w.write_u64(&mut __ov_")
                .concat(n)
                .concat(" as *mut dynspire::managed::DVec<u8> as u64);\n");
            let post = String::from_str("        if !__ov_")
                .concat(n)
                .concat(".ptr.is_null() {\nlet __bytes = unsafe { core::slice::from_raw_parts(__ov_")
                .concat(n)
                .concat(".ptr, __ov_")
                .concat(n)
                .concat(".len) };\n")
                .concat(n)
                .concat(".extend_from_slice(__bytes);\nunsafe { dynspire::managed::dynspire_release(__ov_")
                .concat(n)
                .concat(r#".ptr); }
}
"#);
            encode_stmts = encode_stmts.concat(enc.as_str());
            post_stmts = post_stmts.concat(post.as_str());
        } else {
            let enc = gen_write_encode(&p.ty, n, "__w", types);
            encode_stmts = encode_stmts.concat(enc.as_str());
        }
        i = i + 1;
    }
    let pn = pascal(name);
    let result_recv = gen_read_result_receive(&m.return_type, "__r", types);
    String::from_str("    fn ")
        .concat(name)
        .concat("(")
        .concat(params.as_str())
        .concat(") -> Result<")
        .concat(ret.as_str())
        .concat(r#", String> {
let mut __w = dynspire::slots::SlotWriter::new();
"#)
        .concat(encode_stmts.as_str())
        .concat("let mut __out = [0u64; dynspire::slots::MAX_OUT_SLOTS];\nself.client.dispatch(")
        .concat(opn)
        .concat("::")
        .concat(pn.as_str())
        .concat(r#" as usize, __w.as_slice(), &mut __out)?;
let mut __r = dynspire::slots::SlotReader::new(&__out);
let __result = "#)
        .concat(result_recv.as_str())
        .concat(";\n")
        .concat(post_stmts.as_str())
        .concat(r#"__result
}
"#)
}

/// The client.
pub fn gen_tower(iface: &Interface) -> (r: String)
    requires
        generatable(iface@),
    ensures
        r@ == tower_code(iface@),
{
    let cn = client_name(iface);
    let tn = trait_name(iface);
    let opn = op_name(iface);
    let mut methods = String::new();
    let mut i: usize = 0;
    while i < iface.methods.len()
        invariant
            i <= iface.methods.len(),
            generatable(iface@),
            opn@ == op_ident(iface@.name),
            methods@ == tower_methods(iface@, i as nat),
        decreases iface.methods.len() - i,
    {
        assert(iface@.methods[i as int] == iface.methods@[i as int]@);
        let piece = gen_tower_method(&iface.methods[i], opn.as_str(), iface.types.as_slice());
        methods = methods.concat(piece.as_str());
        i = i + 1;
    }
    String::from_str("pub struct ")
        .concat(cn.as_str())
        .concat(r#" {
    client: dynspire::DynSpireClient,
}

impl "#)
        .concat(cn.as_str())
        .concat(r#" {
    pub fn connect(spier_name: &str, config: &std::collections::HashMap<String, String>, debug: bool) -> Result<Self, String> {
        let client = dynspire::DynSpireClient::connect(spier_name, &IDL, config, debug)?;
        Ok(Self { client })
    }

    pub fn connect_with_debug(spier_name: &str, config: &std::collections::HashMap<String, String>, debug: bool) -> Result<Self, String> {
        Self::connect(spier_name, config, debug)
    }

    /// Snapshot of the allocator's memory occupation (see
    /// `DynSpireClient::allocator_report`). Only meaningful when the client was
    /// created with `debug = true`.
    pub fn allocator_report(&self) -> dynspire::managed::DynSpireAllocatorReport {
        self.client.allocator_report()
    }

    /// Allocate an owning `DVec` in the host allocator (for passing owned
    /// buffers into spier methods that take a `DVec` parameter). Released when
    /// the returned guard is dropped.
    pub fn new_dvec<T: dynspire::managed::ReprC>(&self, cap: usize) -> dynspire::managed::OwnedDVec<T> {
        dynspire::managed::OwnedDVec::new_in(unsafe { &*self.client.alloc_ptr() }, cap)
    }

    /// Allocate an owning `DString` in the host allocator. Released when the
    /// returned guard is dropped.
    pub fn new_dstring(&self, s: &str) -> dynspire::managed::OwnedDString {
        dynspire::managed::OwnedDString::new_in(unsafe { &*self.client.alloc_ptr() }, s)
    }
}

impl "#)
        .concat(tn.as_str())
        .concat(" for ")
        .concat(cn.as_str())
        .concat(" {\n")
        .concat(methods.as_str())
        .concat("}\n\n")
}

// ---------------------------------------------------------------------------
// Spier exports and dispatch macro
// ---------------------------------------------------------------------------

/// The export that tells the interface hash.
pub open spec fn exports_code(hash: u64) -> Seq<char> {
    r#"#[no_mangle]
pub extern "C" fn dynspire_idl_hash() -> u64 {
    "#@
        + dec(hash as nat)
        + r#"
}

"#@
}

/// The export that tells the interface hash. Owned returns carry their own
/// release function, so nothing else is exported.
pub fn gen_spier_exports(hash: u64) -> (r: String)
    ensures
        r@ == exports_code(hash),
{
    String::from_str(r#"#[no_mangle]
pub extern "C" fn dynspire_idl_hash() -> u64 {
    "#)
        .concat(decimal(hash as u64).as_str())
        .concat(r#"
}

"#)
}

/// The statements with which the spier decodes the first `k` parameters.
pub open spec fn dispatch_decode(ps: Seq<ParamModel>, k: nat, types: Seq<Decl>) -> Seq<char>
    decreases k,
{
    if k == 0 {
        r#"            let __in_data = if !in_slots.is_null() && in_count > 0 {
                unsafe { core::slice::from_raw_parts(in_slots, in_count) }
            } else { &[] };
            let mut __r = dynspire::slots::SlotReader::new(__in_data);
"#@
    } else {
        let n = ps[k - 1].name;
        let rt = ps[k - 1].ty.rust_type();
        let decode_expr = read_code(false, ps[k - 1].ty, "__r"@, types, types.len());
        dispatch_decode(ps, (k - 1) as nat, types) + (if ps[k - 1].ty is OutU8Vec {
            "            let __ov_"@
                + n
                + "_dvec = __r.read_u64() as *mut dynspire::managed::DVec<u8>;\nlet mut __ov_"@
                + n
                + "_vec: Vec<u8> = Vec::new();\nlet "@
                + n
                + ": &mut Vec<u8> = &mut __ov_"@
                + n
                + "_vec;\n"@
        } else {
            "            let "@ + n + ": "@ + rt + " = "@ + decode_expr + ";\n"@
        })
    }
}

/// The statements with which the spier hands back the native out-parameters
/// among the first `k`.
pub open spec fn dispatch_post(ps: Seq<ParamModel>, k: nat) -> Seq<char>
    decreases k,
{
    if k == 0 {
        Seq::empty()
    } else if ps[k - 1].ty is OutU8Vec {
        let n = ps[k - 1].name;
        dispatch_post(ps, (k - 1) as nat) + ("            if !__ov_"@
            + n
            + "_dvec.is_null() {\nlet __dvec = &mut *(__ov_"@
            + n
            + "_dvec as *mut dynspire::managed::DVec<u8>);\nlet __n = __ov_"@
            + n
            + r#"_vec.len();
if __n > 0 {
let __new = dynspire::managed::dynspire_realloc(__dvec.allocator, __dvec.ptr, __dvec.cap, __n, 1);
if !__new.is_null() {
core::ptr::copy_nonoverlapping(__ov_"#@
            + n
            + r#"_vec.as_ptr(), __new, __n);
__dvec.ptr = __new; __dvec.len = __n; __dvec.cap = __n; }
}
}
"#@)
    } else {
        dispatch_post(ps, (k - 1) as nat)
    }
}

/// The arguments of the call: the state and the first `k` parameters.
pub open spec fn call_args(ps: Seq<ParamModel>, k: nat) -> Seq<char>
    decreases k,
{
    if k == 0 {
        "state"@
    } else {
        call_args(ps, (k - 1) as nat) + ", "@ + ps[k - 1].name
    }
}

/// The statement with which the spier writes the result: tag 0 and the value,
/// or tag 1 and the message. A guard is turned into its raw value first.
pub open spec fn result_write_code(ret: Ty, types: Seq<Decl>) -> Seq<char> {
    let guarded = ret is DVec || ret is DString;
    let ok_return = write_code(
        true,
        ret,
        if guarded {
            "__raw"@
        } else {
            "__v"@
        },
        "__w"@,
        types,
        types.len(),
    );
    let err_return = write_code(true, Ty::String, "__e"@, "__w"@, types, types.len());
    if ret is Unit {
        r#"match _result {
Ok(__v) => { __w.write_u64(0); }
Err(__e) => { __w.write_u64(1); "#@
            + err_return
            + r#" }
}
"#@
    } else if guarded {
        "match _result {\nOk(__v) => { let __raw = __v.into_raw(); __w.write_u64(0); "@
            + ok_return
            + " }\nErr(__e) => { __w.write_u64(1); "@
            + err_return
            + r#" }
}
"#@
    } else {
        "match _result {\nOk(__v) => { __w.write_u64(0); "@
            + ok_return
            + " }\nErr(__e) => { __w.write_u64(1); "@
            + err_return
            + r#" }
}
"#@
    }
}

/// The dispatch function of one method.
pub open spec fn dispatch_fn(m: MethodModel, tn: Seq<char>, types: Seq<Decl>) -> Seq<char> {
    let method = m.name;
    let in_slots_name = if m.params.len() == 0 {
        "_in_slots"@
    } else {
        "in_slots"@
    };
    let in_count_name = if m.params.len() == 0 {
        "_in_count"@
    } else {
        "in_count"@
    };
    let null_check = r#"            if state_handle.is_null() {
let mut __w = dynspire::slots::SlotWriter::new();
__w.write_u64(1);
let __err = "null handle".to_string();
if __err.is_empty() { __w.write_u64(0); __w.write_u64(0); } else {
let __len = __err.len(); let __data = dynspire::managed::dynspire_alloc(&mut dynspire::managed::default_allocator() as *mut _, __len, 1);
if __data.is_null() { __w.write_u64(0); __w.write_u64(0); } else {
core::ptr::copy_nonoverlapping(__err.as_ptr(), __data, __len);
__w.write_u64(__data as u64); __w.write_u64(__len as u64); }
}
let __n = __w.len(); if __n > out_capacity { return 2; }
if __n > 0 { unsafe { core::ptr::copy_nonoverlapping(__w.as_slice().as_ptr(), out_slots, __n); } }
return 0; }
"#@;
    let state_cast = r#"            let __spier_state = unsafe { &*(state_handle as *const __SpierState) };
            let state = &__spier_state.inner;
            #[allow(unused_variables)]
            let __alloc = __spier_state.allocator;
"#@;
    let decode = if m.params.len() == 0 {
        Seq::empty()
    } else {
        dispatch_decode(m.params, m.params.len(), types)
    };
    let args = call_args(m.params, m.params.len());
    let post_call = dispatch_post(m.params, m.params.len());
    let result_encode = result_write_code(m.return_type, types);
    let write_out = epilogue_code("__w"@, "out_slots"@, "out_capacity"@);
    "        #[no_mangle]\n        pub unsafe extern \"C\" fn dynspire_dispatch_"@
        + method
        + r#"(
            state_handle: *mut std::ffi::c_void,
            "#@
        + in_slots_name
        + ": *const u64,\n            "@
        + in_count_name
        + r#": usize,
            out_slots: *mut u64,
            out_capacity: usize,
        ) -> u8 {
"#@
        + null_check
        + state_cast
        + decode
        + "            let _result = <$state as $crate::"@
        + tn
        + ">::"@
        + method
        + "("@
        + args
        + ");\n"@
        + post_call
        + "            let mut __w = dynspire::slots::SlotWriter::new();\n            "@
        + result_encode
        + "            "@
        + write_out
        + r#"
        }
"#@
}

/// The dispatch functions of the first `n` methods.
pub open spec fn dispatch_fns(iface: InterfaceModel, n: nat) -> Seq<char>
    decreases n,
{
    if n == 0 {
        Seq::empty()
    } else {
        dispatch_fns(iface, (n - 1) as nat) + dispatch_fn(
            iface.methods[n - 1],
            trait_ident(iface.name),
            iface.types,
        )
    }
}

/// The generated macro that makes a spier of a state type: one dispatch
/// function for each method, and the create, destroy and name entry points.
pub open spec fn macro_code(iface: InterfaceModel) -> Seq<char> {
    let mn = macro_ident(iface.name);
    let dispatch = dispatch_fns(iface, iface.methods.len());
    "#[macro_export]\nmacro_rules! "@
        + mn
        + r#" {
    ($state:ty, $init:path, $name:literal) => {
"#@
        + dispatch
        + r#"
        struct __SpierState {
            #[allow(dead_code)]
            allocator: *mut dynspire::managed::DynSpireAllocator,
            inner: $state,
        }

        // Recover the host allocator from `&self` in a spier trait method.
        // `__SpierState` wraps `$state`; `state` (the `&self` the trait method
        // receives) points at `inner`, so we step back by `inner`'s offset.
        impl dynspire::managed::DynSpireStateExt for $state {
            fn __dynspire_alloc(&self) -> *mut dynspire::managed::DynSpireAllocator {
                let __off = ::core::mem::offset_of!(__SpierState, inner);
                let __p = unsafe { (self as *const $state as *const u8).sub(__off) as *const __SpierState };
                unsafe { (*__p).allocator }
            }
        }

        #[no_mangle]
        pub unsafe extern "C" fn dynspire_create(
            allocator: *mut dynspire::managed::DynSpireAllocator,
            data_ptr: *const u8,
            data_len: usize,
        ) -> *mut std::ffi::c_void {
            let config = if data_ptr.is_null() || data_len == 0 {
                std::collections::HashMap::new()
            } else {
                let data = unsafe { std::slice::from_raw_parts(data_ptr, data_len) };
                dynspire::deserialize_kvmap(data)
            };
            match $init(&config) {
                Ok(inner) => {
                    Box::into_raw(Box::new(__SpierState { allocator, inner })) as *mut std::ffi::c_void
                }
                Err(e) => {
                    eprintln!("spier init failed: {e}");
                    std::ptr::null_mut()
                }
            }
        }

        #[no_mangle]
        pub unsafe extern "C" fn dynspire_destroy(handle: *mut std::ffi::c_void) {
            if !handle.is_null() {
                unsafe { drop(Box::from_raw(handle as *mut __SpierState)); }
            }
        }

        #[no_mangle]
        pub extern "C" fn dynspire_spier_name() -> *const u8 {
            concat!($name, "\0").as_ptr()
        }
    };
}
"#@
}

fn gen_result_write(ret: &FieldType, types: &[TypeDecl]) -> (r: String)
    requires
        settled(decls_model(types@)),
        codes(ret@, decls_model(types@), types@.len()),
    ensures
        r@ == result_write_code(ret@, decls_model(types@)),
{
    let guarded = ret.is_guarded_return();
    let ok_var = if guarded {
        "__raw"
    } else {
        "__v"
    };
    let ok_return = gen_write_return(ret, ok_var, "__w", types);
    let err_return = gen_write_return(&FieldType::String, "__e", "__w", types);
    if matches!(ret, FieldType::Unit) {
        String::from_str(r#"match _result {
Ok(__v) => { __w.write_u64(0); }
Err(__e) => { __w.write_u64(1); "#)
            .concat(err_return.as_str())
            .concat(r#" }
}
"#)
    } else if guarded {
        String::from_str("match _result {\nOk(__v) => { let __raw = __v.into_raw(); __w.write_u64(0); ")
            .concat(ok_return.as_str())
            .concat(" }\nErr(__e) => { __w.write_u64(1); ")
            .concat(err_return.as_str())
            .concat(r#" }
}
"#)
    } else {
        String::from_str("match _result {\nOk(__v) => { __w.write_u64(0); ")
            .concat(ok_return.as_str())
            .concat(" }\nErr(__e) => { __w.write_u64(1); ")
            .concat(err_return.as_str())
            .concat(r#" }
}
"#)
    }
}

fn gen_dispatch_fn(m: &Method, tn: &str, types: &[TypeDecl]) -> (r: String)
    requires
        settled(decls_model(types@)),
        method_codes(m@, decls_model(types@)),
    ensures
        r@ == dispatch_fn(m@, tn@, decls_model(types@)),
{
    let ghost tm = decls_model(types@);
    let method = m.name.as_str();
    let in_slots_name = if m.params.len() == 0 {
        "_in_slots"
    } else {
        "in_slots"
    };
    let in_count_name = if m.params.len() == 0 {
        "_in_count"
    } else {
        "in_count"
    };
    let null_check = r#"            if state_handle.is_null() {
let mut __w = dynspire::slots::SlotWriter::new();
__w.write_u64(1);
let __err = "null handle".to_string();
if __err.is_empty() { __w.write_u64(0); __w.write_u64(0); } else {
let __len = __err.len(); let __data = dynspire::managed::dynspire_alloc(&mut dynspire::managed::default_allocator() as *mut _, __len, 1);
if __data.is_null() { __w.write_u64(0); __w.write_u64(0); } else {
core::ptr::copy_nonoverlapping(__err.as_ptr(), __data, __len);
__w.write_u64(__data as u64); __w.write_u64(__len as u64); }
}
let __n = __w.len(); if __n > out_capacity { return 2; }
if __n > 0 { unsafe { core::ptr::copy_nonoverlapping(__w.as_slice().as_ptr(), out_slots, __n); } }
return 0; }
"#;
    let state_cast = r#"            let __spier_state = unsafe { &*(state_handle as *const __SpierState) };
            let state = &__spier_state.inner;
            #[allow(unused_variables)]
            let __alloc = __spier_state.allocator;
"#;
    let mut block = String::from_str(r#"            let __in_data = if !in_slots.is_null() && in_count > 0 {
                unsafe { core::slice::from_raw_parts(in_slots, in_count) }
            } else { &[] };
            let mut __r = dynspire::slots::SlotReader::new(__in_data);
"#);
    let mut post_call = String::new();
    let mut args = String::from_str("state");
    let mut i: usize = 0;
    while i < m.params.len()
        invariant
            i <= m.params.len(),
            tm == decls_model(types@),
            method_codes(m@, tm),
            block@ == dispatch_decode(m@.params, i as nat, tm),
            post_call@ == dispatch_post(m@.params, i as nat),
            args@ == call_args(m@.params, i as nat),
        decreases m.params.len() - i,
    {
        let p = &m.params[i];
        assert(m@.params[i as int] == p@);
        let n = p.name.as_str();
        if matches!(p.ty, FieldType::OutU8Vec) {
            let dec_stmt = String::from_str("            let __ov_")
                .concat(n)
                .concat("_dvec = __r.read_u64() as *mut dynspire::managed::DVec<u8>;\nlet mut __ov_")
                .concat(n)
                .concat("_vec: Vec<u8> = Vec::new();\nlet ")
                .concat(n)
                .concat(": &mut Vec<u8> = &mut __ov_")
                .concat(n)
                .concat("_vec;\n");
            let post = String::from_str("            if !__ov_")
                .concat(n)
                .concat("_dvec.is_null() {\nlet __dvec = &mut *(__ov_")
                .concat(n)
                .concat("_dvec as *mut dynspire::managed::DVec<u8>);\nlet __n = __ov_")
                .concat(n)
                .concat(r#"_vec.len();
if __n > 0 {
let __new = dynspire::managed::dynspire_realloc(__dvec.allocator, __dvec.ptr, __dvec.cap, __n, 1);
if !__new.is_null() {
core::ptr::copy_nonoverlapping(__ov_"#)
                .concat(n)
                .concat(r#"_vec.as_ptr(), __new, __n);
__dvec.ptr = __new; __dvec.len = __n; __dvec.cap = __n; }
}
}
"#);
            block = block.concat(dec_stmt.as_str());
            post_call = post_call.concat(post.as_str());
        } else {
            let rt = p.ty.rust_type();
            let decode_expr = gen_read_decode(&p.ty, "__r", types);
            let dec_stmt = String::from_str("            let ")
                .concat(n)
                .concat(": ")
                .concat(rt.as_str())
                .concat(" = ")
                .concat(decode_expr.as_str())
                .concat(";\n");
            block = block.concat(dec_stmt.as_str());
        }
        args = args.concat(", ").concat(n);
        i = i + 1;
    }
    let decode = if m.params.len() == 0 {
        String::new()
    } else {
        block
    };
    let result_encode = gen_result_write(&m.return_type, types);
    let write_out = gen_write_out_epilogue("__w", "out_slots", "out_capacity");
    String::from_str("        #[no_mangle]\n        pub unsafe extern \"C\" fn dynspire_dispatch_")
        .concat(method)
        .concat(r#"(
            state_handle: *mut std::ffi::c_void,
            "#)
        .concat(in_slots_name)
        .concat(": *const u64,\n            ")
        .concat(in_count_name)
        .concat(r#": usize,
            out_slots: *mut u64,
            out_capacity: usize,
        ) -> u8 {
"#)
        .concat(null_check)
        .concat(state_cast)
        .concat(decode.as_str())
        .concat("            let _result = <$state as $crate::")
        .concat(tn)
        .concat(">::")
        .concat(method)
        .concat("(")
        .concat(args.as_str())
        .concat(");\n")
        .concat(post_call.as_str())
        .concat("            let mut __w = dynspire::slots::SlotWriter::new();\n            ")
        .concat(result_encode.as_str())
        .concat("            ")
        .concat(write_out.as_str())
        .concat(r#"
        }
"#)
}

/// The dispatch macro.
pub fn gen_spier_macro(iface: &Interface) -> (r: String)
    requires
        generatable(iface@),
    ensures
        r@ == macro_code(iface@),
{
    let mn = spier_macro_name(iface);
    let tn = trait_name(iface);
    let mut dispatch = String::new();
    let mut i: usize = 0;
    while i < iface.methods.len()
        invariant
            i <= iface.methods.len(),
            generatable(iface@),
            tn@ == trait_ident(iface@.name),
            dispatch@ == dispatch_fns(iface@, i as nat),
        decreases iface.methods.len() - i,
    {
        assert(iface@.methods[i as int] == iface.methods@[i as int]@);
        let piece = gen_dispatch_fn(&iface.methods[i], tn.as_str(), iface.types.as_slice());
        dispatch = dispatch.concat(piece.as_str());
        i = i + 1;
    }
    String::from_str("#[macro_export]\nmacro_rules! ")
        .concat(mn.as_str())
        .concat(r#" {
    ($state:ty, $init:path, $name:literal) => {
"#)
        .concat(dispatch.as_str())
        .concat(r#"
        struct __SpierState {
            #[allow(dead_code)]
            allocator: *mut dynspire::managed::DynSpireAllocator,
            inner: $state,
        }

        // Recover the host allocator from `&self` in a spier trait method.
        // `__SpierState` wraps `$state`; `state` (the `&self` the trait method
        // receives) points at `inner`, so we step back by `inner`'s offset.
        impl dynspire::managed::DynSpireStateExt for $state {
            fn __dynspire_alloc(&self) -> *mut dynspire::managed::DynSpireAllocator {
                let __off = ::core::mem::offset_of!(__SpierState, inner);
                let __p = unsafe { (self as *const $state as *const u8).sub(__off) as *const __SpierState };
                unsafe { (*__p).allocator }
            }
        }

        #[no_mangle]
        pub unsafe extern "C" fn dynspire_create(
            allocator: *mut dynspire::managed::DynSpireAllocator,
            data_ptr: *const u8,
            data_len: usize,
        ) -> *mut std::ffi::c_void {
            let config = if data_ptr.is_null() || data_len == 0 {
                std::collections::HashMap::new()
            } else {
                let data = unsafe { std::slice::from_raw_parts(data_ptr, data_len) };
                dynspire::deserialize_kvmap(data)
            };
            match $init(&config) {
                Ok(inner) => {
                    Box::into_raw(Box::new(__SpierState { allocator, inner })) as *mut std::ffi::c_void
                }
                Err(e) => {
                    eprintln!("spier init failed: {e}");
                    std::ptr::null_mut()
                }
            }
        }

        #[no_mangle]
        pub unsafe extern "C" fn dynspire_destroy(handle: *mut std::ffi::c_void) {
            if !handle.is_null() {
                unsafe { drop(Box::from_raw(handle as *mut __SpierState)); }
            }
        }

        #[no_mangle]
        pub extern "C" fn dynspire_spier_name() -> *const u8 {
            concat!($name, "\0").as_ptr()
        }
    };
}
"#)
}

// ---------------------------------------------------------------------------
// Whole files
// ---------------------------------------------------------------------------

/// What both sides share: trait, types, operation enum, hash.
pub open spec fn common_code(
    iface: InterfaceModel,
    seen: Seq<(Seq<char>, Seq<char>)>,
) -> Seq<char> {
    let hash = idl_hash(iface);
    let hcn = hash_ident(iface.name);
    "// Auto-generated by dynspire-codegen — do not edit.\n\n"@ + trait_code(iface) + types_code(seen, iface.types, iface.types.len())
        + op_enum_code(iface) + ("pub const "@ + hcn + ": u64 = "@ + dec(hash as nat) + ";\n\n"@)
}

/// The spier side.
pub open spec fn spier_code(
    iface: InterfaceModel,
    seen: Seq<(Seq<char>, Seq<char>)>,
) -> Seq<char> {
    common_code(iface, seen) + exports_code(idl_hash(iface)) + macro_code(iface)
}

/// The names of the first `n` methods, as string literals.
pub open spec fn method_literals(ms: Seq<MethodModel>, n: nat) -> Seq<char>
    decreases n,
{
    if n == 0 {
        Seq::empty()
    } else {
        let name = ms[n - 1].name;
        if n == 1 {
            "\""@ + name + "\""@
        } else {
            method_literals(ms, (n - 1) as nat) + ", "@ + ("\""@ + name + "\""@)
        }
    }
}

/// What the host side adds: the interface descriptor and the client.
pub open spec fn host_suffix_code(iface: InterfaceModel) -> Seq<char> {
    let hcn = hash_ident(iface.name);
    let names = method_literals(iface.methods, iface.methods.len());
    ("pub static IDL: dynspire::IdlDescriptor = dynspire::IdlDescriptor {\n    hash: "@
        + hcn
        + ",\n    methods: &["@
        + names
        + r#"],
};

"#@) + tower_code(iface)
}

/// The host side.
pub open spec fn host_code(
    iface: InterfaceModel,
    seen: Seq<(Seq<char>, Seq<char>)>,
) -> Seq<char> {
    common_code(iface, seen) + host_suffix_code(iface)
}

/// Both sides in one file.
pub open spec fn both_code(
    iface: InterfaceModel,
    seen: Seq<(Seq<char>, Seq<char>)>,
) -> Seq<char> {
    spier_code(iface, seen) + host_suffix_code(iface)
}

/// Whether `text` occurs in `code`.
pub open spec fn occurs(text: Seq<char>, code: Seq<char>) -> bool {
    exists|i: int|
        0 <= i && i + text.len() <= code.len() && #[trigger] code.subrange(i, i + text.len())
            == text
}

pub(crate) proof fn lemma_occurs(before: Seq<char>, text: Seq<char>, after: Seq<char>)
    ensures
        occurs(text, before + text + after),
{
    let code = before + text + after;
    let i = before.len() as int;
    assert(code.subrange(i, i + text.len()) =~= text);
}

/// The declaration of the hash constant.
pub open spec fn hash_line(iface: InterfaceModel) -> Seq<char> {
    let hash = idl_hash(iface);
    let hcn = hash_ident(iface.name);
    "pub const "@ + hcn + ": u64 = "@ + dec(hash as nat) + ";\n\n"@
}

/// A spier and a host built from the same interface carry the same hash,
/// whatever has been built before them.
pub proof fn sides_carry_the_same_hash(
    iface: InterfaceModel,
    seen: Seq<(Seq<char>, Seq<char>)>,
    elsewhere: Seq<(Seq<char>, Seq<char>)>,
)
    ensures
        occurs(hash_line(iface), spier_code(iface, seen)),
        occurs(hash_line(iface), host_code(iface, elsewhere)),
        occurs(hash_line(iface), both_code(iface, seen)),
{
    let line = hash_line(iface);
    let a = "// Auto-generated by dynspire-codegen — do not edit.\n\n"@ + trait_code(iface) + types_code(seen, iface.types, iface.types.len())
        + op_enum_code(iface);
    let b = "// Auto-generated by dynspire-codegen — do not edit.\n\n"@ + trait_code(iface) + types_code(
        elsewhere,
        iface.types,
        iface.types.len(),
    ) + op_enum_code(iface);
    let spier = exports_code(idl_hash(iface)) + macro_code(iface);
    let host = host_suffix_code(iface);
    assert(common_code(iface, seen) =~= a + line);
    assert(common_code(iface, elsewhere) =~= b + line);
    assert(spier_code(iface, seen) =~= a + line + spier);
    assert(host_code(iface, elsewhere) =~= b + line + host);
    assert(both_code(iface, seen) =~= a + line + (spier + host));
    lemma_occurs(a, line, spier);
    lemma_occurs(b, line, host);
    lemma_occurs(a, line, spier + host);
}

/// The outcome of generating `code` for the types of `iface` in a context: the
/// code, with every type registered, or the first conflict.
pub open spec fn generated(
    r: Result<String, String>,
    code: Seq<char>,
    types: Seq<Decl>,
    seen: Seq<(Seq<char>, Seq<char>)>,
    after: Seq<(Seq<char>, Seq<char>)>,
) -> bool {
    match r {
        Ok(out) => {
            &&& agrees(seen, types)
            &&& out@ == code
            &&& after == seen_after(seen, types, types.len())
        },
        Err(msg) => stops(seen, types, msg@, after),
    }
}

fn gen_common(iface: &Interface, ctx: &mut BuildContext) -> (r: Result<String, String>)
    requires
        generatable(iface@),
    ensures
        generated(
            r,
            common_code(iface@, old(ctx)@),
            iface@.types,
            old(ctx)@,
            final(ctx)@,
        ),
{
    let hash: u64 = iface.hash();
    let hcn = hash_const_name(iface);
    match gen_types(iface, ctx) {
        Err(msg) => Err(msg),
        Ok(types) => {
            let constant = String::from_str("pub const ")
                .concat(hcn.as_str())
                .concat(": u64 = ")
                .concat(decimal(hash as u64).as_str())
                .concat(";\n\n");
            Ok(
                (String::from_str("// Auto-generated by dynspire-codegen — do not edit.\n\n")).concat(gen_trait(iface).as_str()).concat(types.as_str()).concat(
                    gen_op_enum(iface).as_str(),
                ).concat(constant.as_str()),
            )
        },
    }
}

/// Generates the spier side, skipping types that the context has seen.
pub fn generate_spier_with_ctx(iface: &Interface, ctx: &mut BuildContext) -> (r: Result<
    String,
    String,
>)
    requires
        generatable(iface@),
    ensures
        generated(r, spier_code(iface@, old(ctx)@), iface@.types, old(ctx)@, final(ctx)@),
{
    match gen_common(iface, ctx) {
        Err(msg) => Err(msg),
        Ok(common) => Ok(
            common.concat(gen_spier_exports(iface.hash()).as_str()).concat(
                gen_spier_macro(iface).as_str(),
            ),
        ),
    }
}

/// Generates the host side, skipping types that the context has seen.
pub fn generate_host_with_ctx(iface: &Interface, ctx: &mut BuildContext) -> (r: Result<
    String,
    String,
>)
    requires
        generatable(iface@),
    ensures
        generated(r, host_code(iface@, old(ctx)@), iface@.types, old(ctx)@, final(ctx)@),
{
    match gen_common(iface, ctx) {
        Err(msg) => Err(msg),
        Ok(common) => Ok(common.concat(generate_host_suffix(iface).as_str())),
    }
}

/// Generates both sides in one file, skipping types that the context has seen.
pub fn generate_with_ctx(iface: &Interface, ctx: &mut BuildContext) -> (r: Result<String, String>)
    requires
        generatable(iface@),
    ensures
        generated(r, both_code(iface@, old(ctx)@), iface@.types, old(ctx)@, final(ctx)@),
{
    match generate_spier_with_ctx(iface, ctx) {
        Err(msg) => Err(msg),
        Ok(spier) => Ok(spier.concat(generate_host_suffix(iface).as_str())),
    }
}

/// The descriptor and the client of the host side.
pub fn generate_host_suffix(iface: &Interface) -> (r: String)
    requires
        generatable(iface@),
    ensures
        r@ == host_suffix_code(iface@),
{
    let hcn = hash_const_name(iface);
    let mut names = String::new();
    let mut i: usize = 0;
    while i < iface.methods.len()
        invariant
            i <= iface.methods.len(),
            names@ == method_literals(iface@.methods, i as nat),
        decreases iface.methods.len() - i,
    {
        assert(iface@.methods[i as int] == iface.methods@[i as int]@);
        let name = iface.methods[i].name.as_str();
        let one = String::from_str("\"").concat(name).concat("\"");
        if i == 0 {
            names = one;
        } else {
            names = names.concat(", ").concat(one.as_str());
        }
        i = i + 1;
    }
    (String::from_str("pub static IDL: dynspire::IdlDescriptor = dynspire::IdlDescriptor {\n    hash: ")
        .concat(hcn.as_str())
        .concat(",\n    methods: &[")
        .concat(names.as_str())
        .concat(r#"],
};

"#)).concat(gen_tower(iface).as_str())
}

proof fn lemma_no_stop(
    seen: Seq<(Seq<char>, Seq<char>)>,
    types: Seq<Decl>,
    msg: Seq<char>,
    after: Seq<(Seq<char>, Seq<char>)>,
)
    requires
        agrees(seen, types),
    ensures
        !stops(seen, types, msg, after),
{
    if stops(seen, types, msg, after) {
        let i = choose|i: int| #[trigger]
            is_first_conflict(seen, types, i, msg) && after == seen_after(seen, types, i as nat);
        assert(conflicts(seen, types, i));
    }
}

/// Generates a complete Rust source file, both sides.
pub fn generate(iface: &Interface) -> (r: String)
    requires
        generatable(iface@),
        agrees(Seq::empty(), iface@.types),
    ensures
        r@ == both_code(iface@, Seq::empty()),
{
    let mut ctx = BuildContext::new();
    match generate_with_ctx(iface, &mut ctx) {
        Ok(code) => code,
        Err(msg) => {
            proof {
                lemma_no_stop(Seq::empty(), iface@.types, msg@, ctx@);
            }
            msg
        },
    }
}

/// Generates the spier side: trait, types, operation enum, hash and macro.
pub fn generate_spier(iface: &Interface) -> (r: String)
    requires
        generatable(iface@),
        agrees(Seq::empty(), iface@.types),
    ensures
        r@ == spier_code(iface@, Seq::empty()),
{
    let mut ctx = BuildContext::new();
    match generate_spier_with_ctx(iface, &mut ctx) {
        Ok(code) => code,
        Err(msg) => {
            proof {
                lemma_no_stop(Seq::empty(), iface@.types, msg@, ctx@);
            }
            msg
        },
    }
}

/// Generates the host side: trait, types, operation enum, hash, descriptor and
/// client.
pub fn generate_host(iface: &Interface) -> (r: String)
    requires
        generatable(iface@),
        agrees(Seq::empty(), iface@.types),
    ensures
        r@ == host_code(iface@, Seq::empty()),
{
    let mut ctx = BuildContext::new();
    match generate_host_with_ctx(iface, &mut ctx) {
        Ok(code) => code,
        Err(msg) => {
            proof {
                lemma_no_stop(Seq::empty(), iface@.types, msg@, ctx@);
            }
            msg
        },
    }
}

/// The name of the file that a build writes.
pub open spec fn file_name(name: Seq<char>, side: Seq<char>) -> Seq<char> {
    let lower = lower_text(name);
    lower + "_"@ + side + ".rs"@
}

fn output_file(iface: &Interface, side: &str) -> (r: String)
    ensures
        r@ == file_name(iface@.name, side@),
{
    let lower = to_lower(iface.name.as_str());
    String::from_str(lower.as_str()).concat("_").concat(side).concat(".rs")
}

impl BuildContext {
    /// Builds a loaded interface, both sides in one file: the name of the file
    /// and its content. Types emitted by earlier builds are skipped.
    pub fn build(&mut self, iface: &Interface) -> (r: (String, Result<String, String>))
        requires
            generatable(iface@),
        ensures
            r.0@ == file_name(iface@.name, "spier"@),
            generated(r.1, both_code(iface@, old(self)@), iface@.types, old(self)@, final(self)@),
    {
        (output_file(iface, "spier"), generate_with_ctx(iface, self))
    }

    /// Like [`BuildContext::build`], for the spier side alone.
    pub fn build_spier(&mut self, iface: &Interface) -> (r: (String, Result<String, String>))
        requires
            generatable(iface@),
        ensures
            r.0@ == file_name(iface@.name, "spier"@),
            generated(r.1, spier_code(iface@, old(self)@), iface@.types, old(self)@, final(self)@),
    {
        (output_file(iface, "spier"), generate_spier_with_ctx(iface, self))
    }

    /// Like [`BuildContext::build`], for the host side alone.
    pub fn build_host(&mut self, iface: &Interface) -> (r: (String, Result<String, String>))
        requires
            generatable(iface@),
        ensures
            r.0@ == file_name(iface@.name, "host"@),
            generated(r.1, host_code(iface@, old(self)@), iface@.types, old(self)@, final(self)@),
    {
        (output_file(iface, "host"), generate_host_with_ctx(iface, self))
    }
}

} // verus!
