//! The abstract syntax of `.dspi` interface definitions.
//!
//! Built by [`crate::parser::parse`], consumed by the code generators. Each
//! type has a model, its view: the same tree over characters and sequences,
//! of which the contracts of the parser and the generators speak.
use vstd::prelude::*;
use vstd::string::StringExecFns;

use crate::text::{dec, decimal, strings_model};

verus! {

// ---------------------------------------------------------------------------
// Syntax
// ---------------------------------------------------------------------------

/// A complete interface definition parsed from a `.dspi` file.
///
/// `interface Rle { ... }` gives `Interface { name: "Rle", ... }`.
#[derive(Debug, PartialEq)]
pub struct Interface {
    pub name: String,
    pub includes: Vec<String>,
    pub types: Vec<TypeDecl>,
    pub methods: Vec<Method>,
}

#[derive(Debug, PartialEq)]
pub enum TypeDecl {
    Struct(StructDecl),
    Enum(EnumDecl),
    Opaque(OpaqueDecl),
}

/// `struct CompressionReport { original_size: u64, ... }`
#[derive(Debug, PartialEq)]
pub struct StructDecl {
    pub name: String,
    pub fields: Vec<(String, FieldType)>,
}

/// `enum Tone { Quiet, Normal, Loud(u8) }`
#[derive(Debug, PartialEq)]
pub struct EnumDecl {
    pub name: String,
    pub variants: Vec<EnumVariant>,
}

#[derive(Debug, PartialEq)]
pub struct EnumVariant {
    pub name: String,
    pub fields: Vec<FieldType>,
}

/// `opaque struct Handle;`
#[derive(Debug, PartialEq)]
pub struct OpaqueDecl {
    pub name: String,
}

#[derive(Debug, PartialEq)]
pub struct Method {
    pub name: String,
    pub params: Vec<Param>,
    /// The type of the `Ok` value. `Result<_, String>` is implicit.
    pub return_type: FieldType,
}

#[derive(Debug, PartialEq)]
pub struct Param {
    pub name: String,
    pub ty: FieldType,
}

/// Every type that can appear in a `.dspi` method signature or in a field of a
/// struct or an enum. Each variant stands for one way to lay a value out in
/// slots; the set is closed.
#[derive(Debug, PartialEq)]
pub enum FieldType {
    Unit,
    Bool,
    U8,
    U16,
    U32,
    U64,
    I8,
    I16,
    I32,
    I64,
    F32,
    F64,
    /// `&str`: a borrowed native string.
    Str,
    /// `&[u8]`: borrowed native bytes.
    U8Slice,
    /// `&mut Vec<u8>`: a native out-parameter.
    OutU8Vec,
    /// An owned native string. In a field it is laid out as a `DString`.
    String,
    /// An owned native vector. In a field it is laid out as a `DVec`.
    Vec(Box<FieldType>),
    /// A native option. In a field it is laid out as a `DOption`.
    Option(Box<FieldType>),
    /// A string view (`dynspire::managed::DStr`).
    DStr,
    /// A slice view (`dynspire::managed::DSlice<T>`).
    DSlice(Box<FieldType>),
    /// An owned managed string (`dynspire::managed::DString`).
    DString,
    /// An owned managed vector (`dynspire::managed::DVec<T>`).
    DVec(Box<FieldType>),
    /// A managed option (`dynspire::managed::DOption<T>`).
    DOption(Box<FieldType>),
    /// `&T`: a shared view. Of a `DString` or a `DVec` it takes two slots, the
    /// pointer and the length; any other type is laid out as by value.
    Ref(Box<FieldType>),
    /// `&mut T`: an out-parameter, which the callee fills.
    RefMut(Box<FieldType>),
    /// `(A, B, C)`, of two or more elements.
    Tuple(Vec<FieldType>),
    /// `[u8; N]`: an array of fixed length.
    Array(Box<FieldType>, usize),
    /// A declared type (struct, enum or opaque).
    Named(String),
}

// ---------------------------------------------------------------------------
// Models
// ---------------------------------------------------------------------------

/// The model of a [`FieldType`].
pub enum Ty {
    Unit,
    Bool,
    U8,
    U16,
    U32,
    U64,
    I8,
    I16,
    I32,
    I64,
    F32,
    F64,
    Str,
    U8Slice,
    OutU8Vec,
    String,
    Vec(Box<Ty>),
    Option(Box<Ty>),
    DStr,
    DSlice(Box<Ty>),
    DString,
    DVec(Box<Ty>),
    DOption(Box<Ty>),
    Ref(Box<Ty>),
    RefMut(Box<Ty>),
    Tuple(Seq<Ty>),
    Array(Box<Ty>, nat),
    Named(Seq<char>),
}

/// The model of a [`StructDecl`].
pub struct StructModel {
    pub name: Seq<char>,
    pub fields: Seq<(Seq<char>, Ty)>,
}

/// The model of an [`EnumVariant`].
pub struct VariantModel {
    pub name: Seq<char>,
    pub fields: Seq<Ty>,
}

/// The model of an [`EnumDecl`].
pub struct EnumModel {
    pub name: Seq<char>,
    pub variants: Seq<VariantModel>,
}

/// The model of a [`TypeDecl`].
pub enum Decl {
    Struct(StructModel),
    Enum(EnumModel),
    Opaque(Seq<char>),
}

/// The model of a [`Param`].
pub struct ParamModel {
    pub name: Seq<char>,
    pub ty: Ty,
}

/// The model of a [`Method`].
pub struct MethodModel {
    pub name: Seq<char>,
    pub params: Seq<ParamModel>,
    pub return_type: Ty,
}

/// The model of an [`Interface`].
pub struct InterfaceModel {
    pub name: Seq<char>,
    pub includes: Seq<Seq<char>>,
    pub types: Seq<Decl>,
    pub methods: Seq<MethodModel>,
}

impl FieldType {
    pub open spec fn model(&self) -> Ty
        decreases self,
    {
        match self {
            FieldType::Unit => Ty::Unit,
            FieldType::Bool => Ty::Bool,
            FieldType::U8 => Ty::U8,
            FieldType::U16 => Ty::U16,
            FieldType::U32 => Ty::U32,
            FieldType::U64 => Ty::U64,
            FieldType::I8 => Ty::I8,
            FieldType::I16 => Ty::I16,
            FieldType::I32 => Ty::I32,
            FieldType::I64 => Ty::I64,
            FieldType::F32 => Ty::F32,
            FieldType::F64 => Ty::F64,
            FieldType::Str => Ty::Str,
            FieldType::U8Slice => Ty::U8Slice,
            FieldType::OutU8Vec => Ty::OutU8Vec,
            FieldType::String => Ty::String,
            FieldType::Vec(t) => Ty::Vec(Box::new(t.model())),
            FieldType::Option(t) => Ty::Option(Box::new(t.model())),
            FieldType::DStr => Ty::DStr,
            FieldType::DSlice(t) => Ty::DSlice(Box::new(t.model())),
            FieldType::DString => Ty::DString,
            FieldType::DVec(t) => Ty::DVec(Box::new(t.model())),
            FieldType::DOption(t) => Ty::DOption(Box::new(t.model())),
            FieldType::Ref(t) => Ty::Ref(Box::new(t.model())),
            FieldType::RefMut(t) => Ty::RefMut(Box::new(t.model())),
            FieldType::Tuple(ts) => Ty::Tuple(
                Seq::new(
                    ts@.len(),
                    |i: int|
                        if 0 <= i < ts@.len() {
                            ts@[i].model()
                        } else {
                            Ty::Unit
                        },
                ),
            ),
            FieldType::Array(t, n) => Ty::Array(Box::new(t.model()), *n as nat),
            FieldType::Named(s) => Ty::Named(s@),
        }
    }
}

impl View for FieldType {
    type V = Ty;

    open spec fn view(&self) -> Ty {
        self.model()
    }
}

/// The models of a list of types.
pub open spec fn types_model(ts: Seq<FieldType>) -> Seq<Ty> {
    Seq::new(ts.len(), |i: int| ts[i]@)
}

/// The models of a list of named fields.
pub open spec fn fields_model(fs: Seq<(String, FieldType)>) -> Seq<(Seq<char>, Ty)> {
    Seq::new(fs.len(), |i: int| (fs[i].0@, fs[i].1@))
}

impl View for StructDecl {
    type V = StructModel;

    open spec fn view(&self) -> StructModel {
        StructModel { name: self.name@, fields: fields_model(self.fields@) }
    }
}

impl View for EnumVariant {
    type V = VariantModel;

    open spec fn view(&self) -> VariantModel {
        VariantModel { name: self.name@, fields: types_model(self.fields@) }
    }
}

impl View for EnumDecl {
    type V = EnumModel;

    open spec fn view(&self) -> EnumModel {
        EnumModel {
            name: self.name@,
            variants: Seq::new(self.variants@.len(), |i: int| self.variants@[i]@),
        }
    }
}

impl View for TypeDecl {
    type V = Decl;

    open spec fn view(&self) -> Decl {
        match self {
            TypeDecl::Struct(s) => Decl::Struct(s@),
            TypeDecl::Enum(e) => Decl::Enum(e@),
            TypeDecl::Opaque(o) => Decl::Opaque(o.name@),
        }
    }
}

impl View for Param {
    type V = ParamModel;

    open spec fn view(&self) -> ParamModel {
        ParamModel { name: self.name@, ty: self.ty@ }
    }
}

impl View for Method {
    type V = MethodModel;

    open spec fn view(&self) -> MethodModel {
        MethodModel {
            name: self.name@,
            params: Seq::new(self.params@.len(), |i: int| self.params@[i]@),
            return_type: self.return_type@,
        }
    }
}

/// The models of a list of declarations.
pub open spec fn decls_model(ts: Seq<TypeDecl>) -> Seq<Decl> {
    Seq::new(ts.len(), |i: int| ts[i]@)
}

impl View for Interface {
    type V = InterfaceModel;

    open spec fn view(&self) -> InterfaceModel {
        InterfaceModel {
            name: self.name@,
            includes: strings_model(self.includes@),
            types: decls_model(self.types@),
            methods: Seq::new(self.methods@.len(), |i: int| self.methods@[i]@),
        }
    }
}

// ---------------------------------------------------------------------------
// What the renderings of a type are
// ---------------------------------------------------------------------------

impl Ty {
    /// The canonical form: what the interface hash is computed from.
    pub open spec fn canonical(self) -> Seq<char>
        decreases self, 0nat,
    {
        match self {
            Ty::Unit => "()"@,
            Ty::Bool => "bool"@,
            Ty::U8 => "u8"@,
            Ty::U16 => "u16"@,
            Ty::U32 => "u32"@,
            Ty::U64 => "u64"@,
            Ty::I8 => "i8"@,
            Ty::I16 => "i16"@,
            Ty::I32 => "i32"@,
            Ty::I64 => "i64"@,
            Ty::F32 => "f32"@,
            Ty::F64 => "f64"@,
            Ty::Str => "&str"@,
            Ty::U8Slice => "&[u8]"@,
            Ty::OutU8Vec => "&mut Vec<u8>"@,
            Ty::String => "String"@,
            Ty::Vec(t) => "Vec<"@ + t.canonical() + ">"@,
            Ty::Option(t) => "Option<"@ + t.canonical() + ">"@,
            Ty::DStr => "DStr"@,
            Ty::DSlice(t) => "DSlice<"@ + t.canonical() + ">"@,
            Ty::DString => "DString"@,
            Ty::DVec(t) => "DVec<"@ + t.canonical() + ">"@,
            Ty::DOption(t) => "DOption<"@ + t.canonical() + ">"@,
            Ty::Ref(t) => "&"@ + t.canonical(),
            Ty::RefMut(t) => "&mut "@ + t.canonical(),
            Ty::Tuple(ts) => "("@ + canonical_list(ts, ts.len()) + ")"@,
            Ty::Array(t, n) => "["@ + t.canonical() + ";"@ + dec(n) + "]"@,
            Ty::Named(n) => n,
        }
    }

    /// The Rust type in a trait signature.
    pub open spec fn rust_type(self) -> Seq<char>
        decreases self, 0nat,
    {
        match self {
            Ty::Unit => "()"@,
            Ty::Bool => "bool"@,
            Ty::U8 => "u8"@,
            Ty::U16 => "u16"@,
            Ty::U32 => "u32"@,
            Ty::U64 => "u64"@,
            Ty::I8 => "i8"@,
            Ty::I16 => "i16"@,
            Ty::I32 => "i32"@,
            Ty::I64 => "i64"@,
            Ty::F32 => "f32"@,
            Ty::F64 => "f64"@,
            Ty::Str => "&str"@,
            Ty::U8Slice => "&[u8]"@,
            Ty::OutU8Vec => "&mut Vec<u8>"@,
            Ty::String => "String"@,
            Ty::Vec(t) => "Vec<"@ + t.rust_type() + ">"@,
            Ty::Option(t) => "Option<"@ + t.rust_type() + ">"@,
            Ty::DStr => "dynspire::managed::DStr"@,
            Ty::DSlice(t) => "dynspire::managed::DSlice<"@ + t.rust_type() + ">"@,
            Ty::DString => "dynspire::managed::DString"@,
            Ty::DVec(t) => "dynspire::managed::DVec<"@ + t.rust_type() + ">"@,
            Ty::DOption(t) => "dynspire::managed::DOption<"@ + t.rust_type() + ">"@,
            Ty::Ref(t) => match *t {
                Ty::DString => "dynspire::managed::DStr"@,
                Ty::DVec(e) => "dynspire::managed::DSlice<"@ + e.rust_type() + ">"@,
                other => other.rust_type(),
            },
            Ty::RefMut(t) => "&mut "@ + t.rust_type(),
            Ty::Tuple(ts) => "("@ + rust_type_list(ts, ts.len()) + ")"@,
            Ty::Array(t, n) => "["@ + t.rust_type() + "; "@ + dec(n) + "]"@,
            Ty::Named(n) => n,
        }
    }

    /// The Rust type of a value that is passed by value.
    pub open spec fn rust_value_type(self) -> Seq<char> {
        match self {
            Ty::DString => "dynspire::managed::DString"@,
            Ty::DVec(t) => "dynspire::managed::DVec<"@ + t.rust_type() + ">"@,
            Ty::DOption(t) => "dynspire::managed::DOption<"@ + t.rust_type() + ">"@,
            other => other.rust_type(),
        }
    }

    /// The Rust type of an input parameter.
    pub open spec fn rust_input_type(self) -> Seq<char> {
        match self {
            Ty::Ref(inner) => match *inner {
                Ty::DString => "dynspire::managed::DStr"@,
                Ty::DVec(elem) => "dynspire::managed::DSlice<"@ + elem.rust_type() + ">"@,
                other => other.rust_value_type(),
            },
            Ty::RefMut(inner) => "&mut "@ + inner.rust_value_type(),
            other => other.rust_value_type(),
        }
    }

    /// The Rust type of a return value: owned managed values come back in a
    /// guard that releases them.
    pub open spec fn rust_output_type(self) -> Seq<char> {
        match self {
            Ty::DString => "dynspire::managed::OwnedDString"@,
            Ty::DVec(t) => "dynspire::managed::OwnedDVec<"@ + t.rust_type() + ">"@,
            other => other.rust_value_type(),
        }
    }

    /// The Rust type of a field of a struct or an enum, in `repr(C)` layout.
    pub open spec fn rust_field_type(self) -> Seq<char>
        decreases self,
    {
        match self {
            Ty::String => "dynspire::managed::DString"@,
            Ty::DString => "dynspire::managed::DString"@,
            Ty::Str => "dynspire::managed::DStr"@,
            Ty::U8Slice => "dynspire::managed::DSlice<u8>"@,
            Ty::Vec(t) => "dynspire::managed::DVec<"@ + t.rust_field_type() + ">"@,
            Ty::DVec(t) => "dynspire::managed::DVec<"@ + t.rust_field_type() + ">"@,
            Ty::Option(t) => "dynspire::managed::DOption<"@ + t.rust_field_type() + ">"@,
            Ty::DOption(t) => "dynspire::managed::DOption<"@ + t.rust_field_type() + ">"@,
            other => other.rust_type(),
        }
    }

    /// The managed type that lays a field out.
    pub open spec fn field_dtype(self) -> Ty
        decreases self,
    {
        match self {
            Ty::String => Ty::DString,
            Ty::Str => Ty::DStr,
            Ty::U8Slice => Ty::DSlice(Box::new(Ty::U8)),
            Ty::Vec(t) => Ty::DVec(Box::new(t.field_dtype())),
            Ty::DVec(t) => Ty::DVec(Box::new(t.field_dtype())),
            Ty::Option(t) => Ty::DOption(Box::new(t.field_dtype())),
            Ty::DOption(t) => Ty::DOption(Box::new(t.field_dtype())),
            other => other,
        }
    }
}

/// The canonical forms of the first `n` types, separated by commas.
pub open spec fn canonical_list(ts: Seq<Ty>, n: nat) -> Seq<char>
    decreases ts, n,
{
    if n == 0 || n > ts.len() {
        Seq::empty()
    } else if n == 1 {
        ts[0].canonical()
    } else {
        canonical_list(ts, (n - 1) as nat) + ","@ + ts[n - 1].canonical()
    }
}

/// The Rust forms of the first `n` types, separated by commas.
pub open spec fn rust_type_list(ts: Seq<Ty>, n: nat) -> Seq<char>
    decreases ts, n,
{
    if n == 0 || n > ts.len() {
        Seq::empty()
    } else if n == 1 {
        ts[0].rust_type()
    } else {
        rust_type_list(ts, (n - 1) as nat) + ", "@ + ts[n - 1].rust_type()
    }
}

impl FieldType {
    /// Canonical form, used for the interface hash and in error messages.
    pub fn canonical(&self) -> (r: String)
        ensures
            r@ == self@.canonical(),
        decreases self,
    {
        match self {
            FieldType::Unit => String::from_str("()"),
            FieldType::Bool => String::from_str("bool"),
            FieldType::U8 => String::from_str("u8"),
            FieldType::U16 => String::from_str("u16"),
            FieldType::U32 => String::from_str("u32"),
            FieldType::U64 => String::from_str("u64"),
            FieldType::I8 => String::from_str("i8"),
            FieldType::I16 => String::from_str("i16"),
            FieldType::I32 => String::from_str("i32"),
            FieldType::I64 => String::from_str("i64"),
            FieldType::F32 => String::from_str("f32"),
            FieldType::F64 => String::from_str("f64"),
            FieldType::Str => String::from_str("&str"),
            FieldType::U8Slice => String::from_str("&[u8]"),
            FieldType::OutU8Vec => String::from_str("&mut Vec<u8>"),
            FieldType::String => String::from_str("String"),
            FieldType::Vec(t) => String::from_str("Vec<").concat(t.canonical().as_str()).concat(">"),
            FieldType::Option(t) => {
                String::from_str("Option<").concat(t.canonical().as_str()).concat(">")
            },
            FieldType::DStr => String::from_str("DStr"),
            FieldType::DSlice(t) => {
                String::from_str("DSlice<").concat(t.canonical().as_str()).concat(">")
            },
            FieldType::DString => String::from_str("DString"),
            FieldType::DVec(t) => {
                String::from_str("DVec<").concat(t.canonical().as_str()).concat(">")
            },
            FieldType::DOption(t) => {
                String::from_str("DOption<").concat(t.canonical().as_str()).concat(">")
            },
            FieldType::Ref(t) => String::from_str("&").concat(t.canonical().as_str()),
            FieldType::RefMut(t) => String::from_str("&mut ").concat(t.canonical().as_str()),
            FieldType::Tuple(ts) => {
                let mut s = String::new();
                let mut i: usize = 0;
                let ghost m = types_model(ts@);
                while i < ts.len()
                    invariant
                        i <= ts.len(),
                        m == types_model(ts@),
                        s@ == canonical_list(m, i as nat),
                        decreases_to!(self => ts@),
                    decreases ts.len() - i,
                {
                    let piece = ts[i].canonical();
                    if i == 0 {
                        s = piece;
                    } else {
                        s = s.concat(",").concat(piece.as_str());
                    }
                    i = i + 1;
                }
                assert(self@ == Ty::Tuple(m)) by {
                    assert(self@->Tuple_0 =~= m);
                }
                String::from_str("(").concat(s.as_str()).concat(")")
            },
            FieldType::Array(t, n) => {
                String::from_str("[").concat(t.canonical().as_str()).concat(";").concat(
                    decimal(*n as u64).as_str(),
                ).concat("]")
            },
            FieldType::Named(n) => n.clone(),
        }
    }

    /// The Rust type in the generated trait signature.
    pub fn rust_type(&self) -> (r: String)
        ensures
            r@ == self@.rust_type(),
        decreases self,
    {
        proof {
            reveal_with_fuel(FieldType::model, 2);
        }
        match self {
            FieldType::Unit => String::from_str("()"),
            FieldType::Bool => String::from_str("bool"),
            FieldType::U8 => String::from_str("u8"),
            FieldType::U16 => String::from_str("u16"),
            FieldType::U32 => String::from_str("u32"),
            FieldType::U64 => String::from_str("u64"),
            FieldType::I8 => String::from_str("i8"),
            FieldType::I16 => String::from_str("i16"),
            FieldType::I32 => String::from_str("i32"),
            FieldType::I64 => String::from_str("i64"),
            FieldType::F32 => String::from_str("f32"),
            FieldType::F64 => String::from_str("f64"),
            FieldType::Str => String::from_str("&str"),
            FieldType::U8Slice => String::from_str("&[u8]"),
            FieldType::OutU8Vec => String::from_str("&mut Vec<u8>"),
            FieldType::String => String::from_str("String"),
            FieldType::Vec(t) => String::from_str("Vec<").concat(t.rust_type().as_str()).concat(">"),
            FieldType::Option(t) => {
                String::from_str("Option<").concat(t.rust_type().as_str()).concat(">")
            },
            FieldType::DStr => String::from_str("dynspire::managed::DStr"),
            FieldType::DSlice(t) => {
                String::from_str("dynspire::managed::DSlice<").concat(
                    t.rust_type().as_str(),
                ).concat(">")
            },
            FieldType::DString => String::from_str("dynspire::managed::DString"),
            FieldType::DVec(t) => {
                String::from_str("dynspire::managed::DVec<").concat(t.rust_type().as_str()).concat(
                    ">",
                )
            },
            FieldType::DOption(t) => {
                String::from_str("dynspire::managed::DOption<").concat(
                    t.rust_type().as_str(),
                ).concat(">")
            },
            FieldType::Ref(t) => match &**t {
                FieldType::DString => String::from_str("dynspire::managed::DStr"),
                FieldType::DVec(e) => {
                    String::from_str("dynspire::managed::DSlice<").concat(
                        e.rust_type().as_str(),
                    ).concat(">")
                },
                other => other.rust_type(),
            },
            FieldType::RefMut(t) => String::from_str("&mut ").concat(t.rust_type().as_str()),
            FieldType::Tuple(ts) => {
                let mut s = String::new();
                let mut i: usize = 0;
                let ghost m = types_model(ts@);
                while i < ts.len()
                    invariant
                        i <= ts.len(),
                        m == types_model(ts@),
                        s@ == rust_type_list(m, i as nat),
                        decreases_to!(self => ts@),
                    decreases ts.len() - i,
                {
                    let piece = ts[i].rust_type();
                    if i == 0 {
                        s = piece;
                    } else {
                        s = s.concat(", ").concat(piece.as_str());
                    }
                    i = i + 1;
                }
                assert(self@ == Ty::Tuple(m)) by {
                    assert(self@->Tuple_0 =~= m);
                }
                String::from_str("(").concat(s.as_str()).concat(")")
            },
            FieldType::Array(t, n) => {
                String::from_str("[").concat(t.rust_type().as_str()).concat("; ").concat(
                    decimal(*n as u64).as_str(),
                ).concat("]")
            },
            FieldType::Named(n) => n.clone(),
        }
    }

    /// The text of the type: its Rust form.
    pub fn to_string(&self) -> (r: String)
        ensures
            r@ == self@.rust_type(),
    {
        self.rust_type()
    }

    /// The Rust type of a value that is passed by value: a struct field, or a
    /// managed input.
    pub fn rust_value_type(&self) -> (r: String)
        ensures
            r@ == self@.rust_value_type(),
    {
        match self {
            FieldType::DString => String::from_str("dynspire::managed::DString"),
            FieldType::DVec(t) => {
                String::from_str("dynspire::managed::DVec<").concat(t.rust_type().as_str()).concat(
                    ">",
                )
            },
            FieldType::DOption(t) => {
                String::from_str("dynspire::managed::DOption<").concat(
                    t.rust_type().as_str(),
                ).concat(">")
            },
            other => other.rust_type(),
        }
    }

    /// The Rust type of a method's input parameter: `&DVec<T>` is received as
    /// the view `DSlice<T>`, `&DString` as `DStr`, and `&mut DVec<T>` stays a
    /// mutable borrow.
    pub fn rust_input_type(&self) -> (r: String)
        ensures
            r@ == self@.rust_input_type(),
    {
        proof {
            reveal_with_fuel(FieldType::model, 2);
        }
        match self {
            FieldType::Ref(inner) => match &**inner {
                FieldType::DString => String::from_str("dynspire::managed::DStr"),
                FieldType::DVec(elem) => {
                    String::from_str("dynspire::managed::DSlice<").concat(
                        elem.rust_type().as_str(),
                    ).concat(">")
                },
                other => other.rust_value_type(),
            },
            FieldType::RefMut(inner) => {
                String::from_str("&mut ").concat(inner.rust_value_type().as_str())
            },
            other => other.rust_value_type(),
        }
    }

    /// The Rust type of a method's return value. An owned `DVec` or `DString`
    /// comes back as an owning guard.
    pub fn rust_output_type(&self) -> (r: String)
        ensures
            r@ == self@.rust_output_type(),
    {
        match self {
            FieldType::DString => String::from_str("dynspire::managed::OwnedDString"),
            FieldType::DVec(t) => {
                String::from_str("dynspire::managed::OwnedDVec<").concat(
                    t.rust_type().as_str(),
                ).concat(">")
            },
            other => other.rust_value_type(),
        }
    }

    /// Whether a return of this type is an owning guard, which the spier turns
    /// into the raw value (`into_raw`) before it writes the slots.
    pub fn is_guarded_return(&self) -> (r: bool)
        ensures
            r == (self@ is DVec || self@ is DString),
    {
        matches!(self, FieldType::DVec(_) | FieldType::DString)
    }

    /// Whether this type is passed by reference as an input parameter.
    pub fn is_borrow(&self) -> (r: bool)
        ensures
            r == (self@ is Ref || self@ is RefMut || self@ is Str || self@ is U8Slice
                || self@ is OutU8Vec),
    {
        matches!(
            self,
            FieldType::Ref(_)
                | FieldType::RefMut(_)
                | FieldType::Str
                | FieldType::U8Slice
                | FieldType::OutU8Vec
        )
    }

    /// The Rust type of a struct or enum field in `repr(C)` layout: native
    /// strings, vectors, options and borrows become their managed forms.
    pub fn rust_field_type(&self) -> (r: String)
        ensures
            r@ == self@.rust_field_type(),
        decreases self,
    {
        match self {
            FieldType::String => String::from_str("dynspire::managed::DString"),
            FieldType::DString => String::from_str("dynspire::managed::DString"),
            FieldType::Str => String::from_str("dynspire::managed::DStr"),
            FieldType::U8Slice => String::from_str("dynspire::managed::DSlice<u8>"),
            FieldType::Vec(t) => {
                String::from_str("dynspire::managed::DVec<").concat(
                    t.rust_field_type().as_str(),
                ).concat(">")
            },
            FieldType::DVec(t) => {
                String::from_str("dynspire::managed::DVec<").concat(
                    t.rust_field_type().as_str(),
                ).concat(">")
            },
            FieldType::Option(t) => {
                String::from_str("dynspire::managed::DOption<").concat(
                    t.rust_field_type().as_str(),
                ).concat(">")
            },
            FieldType::DOption(t) => {
                String::from_str("dynspire::managed::DOption<").concat(
                    t.rust_field_type().as_str(),
                ).concat(">")
            },
            other => other.rust_type(),
        }
    }

    /// The managed type that lays this type out as a field, as
    /// [`FieldType::rust_field_type`] names it.
    pub fn to_field_dtype(&self) -> (r: FieldType)
        ensures
            r@ == self@.field_dtype(),
        decreases self,
    {
        proof {
            reveal_with_fuel(FieldType::model, 2);
        }
        match self {
            FieldType::String => FieldType::DString,
            FieldType::Str => FieldType::DStr,
            FieldType::U8Slice => FieldType::DSlice(Box::new(FieldType::U8)),
            FieldType::Vec(t) => FieldType::DVec(Box::new(t.to_field_dtype())),
            FieldType::DVec(t) => FieldType::DVec(Box::new(t.to_field_dtype())),
            FieldType::Option(t) => FieldType::DOption(Box::new(t.to_field_dtype())),
            FieldType::DOption(t) => FieldType::DOption(Box::new(t.to_field_dtype())),
            other => other.clone(),
        }
    }
}

// ---------------------------------------------------------------------------
// Copies
// ---------------------------------------------------------------------------

impl Clone for FieldType {
    fn clone(&self) -> (r: Self)
        ensures
            r@ == self@,
        decreases self,
    {
        match self {
            FieldType::Unit => FieldType::Unit,
            FieldType::Bool => FieldType::Bool,
            FieldType::U8 => FieldType::U8,
            FieldType::U16 => FieldType::U16,
            FieldType::U32 => FieldType::U32,
            FieldType::U64 => FieldType::U64,
            FieldType::I8 => FieldType::I8,
            FieldType::I16 => FieldType::I16,
            FieldType::I32 => FieldType::I32,
            FieldType::I64 => FieldType::I64,
            FieldType::F32 => FieldType::F32,
            FieldType::F64 => FieldType::F64,
            FieldType::Str => FieldType::Str,
            FieldType::U8Slice => FieldType::U8Slice,
            FieldType::OutU8Vec => FieldType::OutU8Vec,
            FieldType::String => FieldType::String,
            FieldType::Vec(t) => FieldType::Vec(Box::new((**t).clone())),
            FieldType::Option(t) => FieldType::Option(Box::new((**t).clone())),
            FieldType::DStr => FieldType::DStr,
            FieldType::DSlice(t) => FieldType::DSlice(Box::new((**t).clone())),
            FieldType::DString => FieldType::DString,
            FieldType::DVec(t) => FieldType::DVec(Box::new((**t).clone())),
            FieldType::DOption(t) => FieldType::DOption(Box::new((**t).clone())),
            FieldType::Ref(t) => FieldType::Ref(Box::new((**t).clone())),
            FieldType::RefMut(t) => FieldType::RefMut(Box::new((**t).clone())),
            FieldType::Tuple(ts) => {
                let mut v: Vec<FieldType> = Vec::new();
                let mut i: usize = 0;
                while i < ts.len()
                    invariant
                        i <= ts.len(),
                        v@.len() == i,
                        forall|k: int| 0 <= k < i ==> (#[trigger] v@[k])@ == ts@[k]@,
                        decreases_to!(self => ts@),
                    decreases ts.len() - i,
                {
                    v.push(ts[i].clone());
                    i = i + 1;
                }
                let r = FieldType::Tuple(v);
                assert(r@->Tuple_0 =~= self@->Tuple_0);
                r
            },
            FieldType::Array(t, n) => FieldType::Array(Box::new((**t).clone()), *n),
            FieldType::Named(n) => FieldType::Named(n.clone()),
        }
    }
}

/// Copies a list of named fields.
pub fn clone_fields(fs: &Vec<(String, FieldType)>) -> (r: Vec<(String, FieldType)>)
    ensures
        fields_model(r@) == fields_model(fs@),
{
    let mut v: Vec<(String, FieldType)> = Vec::new();
    let mut i: usize = 0;
    while i < fs.len()
        invariant
            i <= fs.len(),
            v@.len() == i,
            forall|k: int|
                0 <= k < i ==> (#[trigger] v@[k]).0@ == fs@[k].0@ && v@[k].1@ == fs@[k].1@,
        decreases fs.len() - i,
    {
        v.push((fs[i].0.clone(), fs[i].1.clone()));
        i = i + 1;
    }
    assert(fields_model(v@) =~= fields_model(fs@));
    v
}

impl Clone for EnumVariant {
    fn clone(&self) -> (r: Self)
        ensures
            r@ == self@,
    {
        let mut v: Vec<FieldType> = Vec::new();
        let mut i: usize = 0;
        while i < self.fields.len()
            invariant
                i <= self.fields.len(),
                v@.len() == i,
                forall|k: int| 0 <= k < i ==> (#[trigger] v@[k])@ == self.fields@[k]@,
            decreases self.fields.len() - i,
        {
            v.push(self.fields[i].clone());
            i = i + 1;
        }
        assert(types_model(v@) =~= types_model(self.fields@));
        EnumVariant { name: self.name.clone(), fields: v }
    }
}

impl Clone for TypeDecl {
    fn clone(&self) -> (r: Self)
        ensures
            r@ == self@,
    {
        match self {
            TypeDecl::Struct(s) => TypeDecl::Struct(
                StructDecl { name: s.name.clone(), fields: clone_fields(&s.fields) },
            ),
            TypeDecl::Enum(e) => {
                let mut v: Vec<EnumVariant> = Vec::new();
                let mut i: usize = 0;
                while i < e.variants.len()
                    invariant
                        i <= e.variants.len(),
                        v@.len() == i,
                        forall|k: int| 0 <= k < i ==> (#[trigger] v@[k])@ == e.variants@[k]@,
                    decreases e.variants.len() - i,
                {
                    v.push(e.variants[i].clone());
                    i = i + 1;
                }
                let d = EnumDecl { name: e.name.clone(), variants: v };
                assert(d@.variants =~= e@.variants);
                TypeDecl::Enum(d)
            },
            TypeDecl::Opaque(o) => TypeDecl::Opaque(OpaqueDecl { name: o.name.clone() }),
        }
    }
}

// ---------------------------------------------------------------------------
// Canonical signature
// ---------------------------------------------------------------------------

/// The first `n` fields of a struct in canonical form.
pub open spec fn canonical_fields(fs: Seq<(Seq<char>, Ty)>, n: nat) -> Seq<char>
    decreases n,
{
    if n == 0 {
        Seq::empty()
    } else {
        let one = fs[n - 1].0 + ":"@ + fs[n - 1].1.canonical();
        if n == 1 {
            one
        } else {
            canonical_fields(fs, (n - 1) as nat) + ","@ + one
        }
    }
}

/// One variant of an enum in canonical form.
pub open spec fn canonical_variant(v: VariantModel) -> Seq<char> {
    if v.fields.len() == 0 {
        v.name
    } else {
        v.name + "("@ + canonical_list(v.fields, v.fields.len()) + ")"@
    }
}

/// The first `n` variants of an enum in canonical form.
pub open spec fn canonical_variants(vs: Seq<VariantModel>, n: nat) -> Seq<char>
    decreases n,
{
    if n == 0 {
        Seq::empty()
    } else if n == 1 {
        canonical_variant(vs[0])
    } else {
        canonical_variants(vs, (n - 1) as nat) + ","@ + canonical_variant(vs[n - 1])
    }
}

impl Decl {
    /// The declared name.
    pub open spec fn name(self) -> Seq<char> {
        match self {
            Decl::Struct(s) => s.name,
            Decl::Enum(e) => e.name,
            Decl::Opaque(n) => n,
        }
    }

    /// The canonical form of a declaration.
    pub open spec fn canonical(self) -> Seq<char> {
        match self {
            Decl::Struct(s) => "struct "@ + s.name + "{"@ + canonical_fields(
                s.fields,
                s.fields.len(),
            ) + "}"@,
            Decl::Enum(e) => "enum "@ + e.name + "{"@ + canonical_variants(
                e.variants,
                e.variants.len(),
            ) + "}"@,
            Decl::Opaque(n) => "opaque "@ + n,
        }
    }
}

/// The first `n` declarations in canonical form.
pub open spec fn canonical_decls(ts: Seq<Decl>, n: nat) -> Seq<char>
    decreases n,
{
    if n == 0 {
        Seq::empty()
    } else if n == 1 {
        ts[0].canonical()
    } else {
        canonical_decls(ts, (n - 1) as nat) + ";"@ + ts[n - 1].canonical()
    }
}

/// The canonical forms of the types of the first `n` parameters.
pub open spec fn canonical_params(ps: Seq<ParamModel>, n: nat) -> Seq<char>
    decreases n,
{
    if n == 0 {
        Seq::empty()
    } else if n == 1 {
        ps[0].ty.canonical()
    } else {
        canonical_params(ps, (n - 1) as nat) + ","@ + ps[n - 1].ty.canonical()
    }
}

/// One method in canonical form: its name, parameter types and return type.
pub open spec fn canonical_method(m: MethodModel) -> Seq<char> {
    m.name + "("@ + canonical_params(m.params, m.params.len()) + ")->"@ + m.return_type.canonical()
}

/// The first `n` methods in canonical form.
pub open spec fn canonical_methods(ms: Seq<MethodModel>, n: nat) -> Seq<char>
    decreases n,
{
    if n == 0 {
        Seq::empty()
    } else if n == 1 {
        canonical_method(ms[0])
    } else {
        canonical_methods(ms, (n - 1) as nat) + ","@ + canonical_method(ms[n - 1])
    }
}

impl InterfaceModel {
    /// The canonical signature: `Name|type;type|method(params)->ret,...`.
    pub open spec fn canonical_sig(self) -> Seq<char> {
        self.name + "|"@ + canonical_decls(self.types, self.types.len()) + "|"@ + canonical_methods(
            self.methods,
            self.methods.len(),
        )
    }
}

impl TypeDecl {
    /// The declared name.
    pub fn name(&self) -> (r: &str)
        ensures
            r@ == self@.name(),
    {
        match self {
            TypeDecl::Struct(s) => s.name.as_str(),
            TypeDecl::Enum(e) => e.name.as_str(),
            TypeDecl::Opaque(o) => o.name.as_str(),
        }
    }

    /// The canonical form of the declaration.
    pub fn canonical(&self) -> (r: String)
        ensures
            r@ == self@.canonical(),
    {
        match self {
            TypeDecl::Struct(s) => {
                let mut t = String::new();
                let mut i: usize = 0;
                while i < s.fields.len()
                    invariant
                        i <= s.fields.len(),
                        t@ == canonical_fields(s@.fields, i as nat),
                    decreases s.fields.len() - i,
                {
                    let one = s.fields[i].0.clone().concat(":").concat(
                        s.fields[i].1.canonical().as_str(),
                    );
                    if i == 0 {
                        t = one;
                    } else {
                        t = t.concat(",").concat(one.as_str());
                    }
                    i = i + 1;
                }
                String::from_str("struct ").concat(s.name.as_str()).concat("{").concat(
                    t.as_str(),
                ).concat("}")
            },
            TypeDecl::Enum(e) => {
                let mut t = String::new();
                let mut i: usize = 0;
                while i < e.variants.len()
                    invariant
                        i <= e.variants.len(),
                        t@ == canonical_variants(e@.variants, i as nat),
                    decreases e.variants.len() - i,
                {
                    let one = e.variants[i].canonical();
                    if i == 0 {
                        t = one;
                    } else {
                        t = t.concat(",").concat(one.as_str());
                    }
                    i = i + 1;
                }
                String::from_str("enum ").concat(e.name.as_str()).concat("{").concat(
                    t.as_str(),
                ).concat("}")
            },
            TypeDecl::Opaque(o) => String::from_str("opaque ").concat(o.name.as_str()),
        }
    }
}

impl EnumVariant {
    fn canonical(&self) -> (r: String)
        ensures
            r@ == canonical_variant(self@),
    {
        if self.fields.len() == 0 {
            return self.name.clone();
        }
        let mut s = String::new();
        let mut i: usize = 0;
        while i < self.fields.len()
            invariant
                i <= self.fields.len(),
                s@ == canonical_list(self@.fields, i as nat),
            decreases self.fields.len() - i,
        {
            let piece = self.fields[i].canonical();
            if i == 0 {
                s = piece;
            } else {
                s = s.concat(",").concat(piece.as_str());
            }
            i = i + 1;
        }
        self.name.clone().concat("(").concat(s.as_str()).concat(")")
    }
}

impl Method {
    fn canonical(&self) -> (r: String)
        ensures
            r@ == canonical_method(self@),
    {
        let mut s = String::new();
        let mut i: usize = 0;
        while i < self.params.len()
            invariant
                i <= self.params.len(),
                s@ == canonical_params(self@.params, i as nat),
            decreases self.params.len() - i,
        {
            let piece = self.params[i].ty.canonical();
            if i == 0 {
                s = piece;
            } else {
                s = s.concat(",").concat(piece.as_str());
            }
            i = i + 1;
        }
        self.name.clone().concat("(").concat(s.as_str()).concat(")->").concat(
            self.return_type.canonical().as_str(),
        )
    }
}

impl Interface {
    /// Canonical signature, from which the interface hash is computed:
    /// `Name|type;type|method(params)->ret,...`. It depends on the syntax tree
    /// alone, never on how the source was formatted.
    pub fn canonical_sig(&self) -> (r: String)
        ensures
            r@ == self@.canonical_sig(),
    {
        let mut types = String::new();
        let mut i: usize = 0;
        while i < self.types.len()
            invariant
                i <= self.types.len(),
                types@ == canonical_decls(self@.types, i as nat),
            decreases self.types.len() - i,
        {
            let piece = self.types[i].canonical();
            if i == 0 {
                types = piece;
            } else {
                types = types.concat(";").concat(piece.as_str());
            }
            i = i + 1;
        }
        let mut methods = String::new();
        let mut j: usize = 0;
        while j < self.methods.len()
            invariant
                j <= self.methods.len(),
                methods@ == canonical_methods(self@.methods, j as nat),
            decreases self.methods.len() - j,
        {
            let piece = self.methods[j].canonical();
            if j == 0 {
                methods = piece;
            } else {
                methods = methods.concat(",").concat(piece.as_str());
            }
            j = j + 1;
        }
        self.name.clone().concat("|").concat(types.as_str()).concat("|").concat(methods.as_str())
    }
}

// ---------------------------------------------------------------------------
// FNV-1a, 64 bits
// ---------------------------------------------------------------------------

/// The 64-bit FNV-1a hash of `data`.
pub open spec fn fnv1a(data: Seq<u8>) -> u64
    decreases data.len(),
{
    if data.len() == 0 {
        0xcbf29ce484222325
    } else {
        (fnv1a(data.drop_last()) ^ (data.last() as u64)).wrapping_mul(0x100000001b3)
    }
}

/// Computes the 64-bit FNV-1a hash of `data`.
pub fn fnv1a_64(data: &[u8]) -> (hash: u64)
    ensures
        hash == fnv1a(data@),
{
    let mut hash: u64 = 0xcbf29ce484222325;
    let mut i: usize = 0;
    while i < data.len()
        invariant
            i <= data.len(),
            hash == fnv1a(data@.take(i as int)),
        decreases data.len() - i,
    {
        assert(data@.take(i + 1).drop_last() =~= data@.take(i as int));
        hash = hash ^ (data[i] as u64);
        hash = hash.wrapping_mul(0x100000001b3);
        i = i + 1;
    }
    assert(data@.take(data.len() as int) =~= data@);
    hash
}

/// The interface hash: FNV-1a of the UTF-8 bytes of the canonical signature.
pub open spec fn idl_hash(iface: InterfaceModel) -> u64 {
    fnv1a(vstd::utf8::encode_utf8(iface.canonical_sig()))
}

impl Interface {
    /// The interface hash, which a host and a spier compare at load time.
    pub fn hash(&self) -> (h: u64)
        ensures
            h == idl_hash(self@),
    {
        let sig = self.canonical_sig();
        fnv1a_64(sig.as_str().as_bytes())
    }
}

/// The canonical signature, and with it the interface hash, depends on the
/// syntax tree alone: two definitions with the same name, declarations and
/// methods have the same hash, whatever files they were assembled from.
pub proof fn hash_depends_on_syntax_alone(a: InterfaceModel, b: InterfaceModel)
    requires
        a.name == b.name,
        a.types == b.types,
        a.methods == b.methods,
    ensures
        a.canonical_sig() == b.canonical_sig(),
        idl_hash(a) == idl_hash(b),
{
}

} // verus!
