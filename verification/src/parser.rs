//! The recursive-descent parser of `.dspi` files.
//!
//! It takes the tokens of [`crate::lexer`] and builds the syntax tree. Every
//! error carries the line and column of the token it was found at.
use vstd::prelude::*;
use vstd::string::{StringExecFns, StringSliceAdditionalSpecFns};

use crate::ast::{
    decls_model, fields_model, types_model, Decl, EnumDecl, EnumModel, EnumVariant, FieldType,
    Interface, InterfaceModel, Method, MethodModel, OpaqueDecl, Param, ParamModel, StructDecl,
    StructModel, Ty, TypeDecl, VariantModel,
};
use crate::codec::{field_types, find_type, lookup};
use crate::lexer::{
    ends_with_eof, error_text, place_message, token_models, tokens, tokens_end_with_eof, ErrorModel,
    Lexer, Tok, Token, TokenKind, TokenModel,
};
use crate::text::{dec, decimal, same, strings_model};

verus! {

// ---------------------------------------------------------------------------
// Errors
// ---------------------------------------------------------------------------

/// What is wrong with a source, and where.
#[derive(Debug)]
pub struct ParseError {
    pub line: usize,
    pub col: usize,
    pub msg: String,
}

impl View for ParseError {
    type V = ErrorModel;

    open spec fn view(&self) -> ErrorModel {
        ErrorModel { line: self.line, col: self.col, msg: self.msg@ }
    }
}

impl ParseError {
    /// The text of the error: `line:col: message`.
    pub fn to_string(&self) -> (r: String)
        ensures
            r@ == error_text(self@),
    {
        place_message(self.line, self.col, self.msg.as_str())
    }
}

// ---------------------------------------------------------------------------
// The grammar
// ---------------------------------------------------------------------------

/// What a parse gives: a value and the position after it, or an error.
pub type Parsed<T> = Result<(T, nat), ErrorModel>;

/// The number of tokens from `p` on.
pub open spec fn left(ts: Seq<TokenModel>, p: nat) -> nat {
    if p < ts.len() {
        (ts.len() - p) as nat
    } else {
        0
    }
}

/// `q`, which every parse that starts at `p` puts past `p`.
pub open spec fn past(p: nat, q: nat) -> nat {
    if q > p {
        q
    } else {
        p + 1
    }
}

/// The kind of the token at `p`.
pub open spec fn kind(ts: Seq<TokenModel>, p: nat) -> Tok {
    ts[p as int].kind
}

/// The error `msg` at the token at `p`.
pub open spec fn error_here(ts: Seq<TokenModel>, p: nat, msg: Seq<char>) -> ErrorModel {
    ErrorModel { line: ts[p as int].line, col: ts[p as int].col, msg }
}

/// The error that `what` was expected at `p`.
pub open spec fn expected(ts: Seq<TokenModel>, p: nat, what: Seq<char>) -> ErrorModel {
    let found = kind(ts, p).kind_name();
    error_here(ts, p, "expected "@ + what + ", found "@ + found)
}

/// The token `k` at `p`, and the position after it.
pub open spec fn eat(ts: Seq<TokenModel>, p: nat, k: Tok) -> Result<nat, ErrorModel> {
    if kind(ts, p) == k {
        Ok(p + 1)
    } else {
        Err(expected(ts, p, k.kind_name()))
    }
}

/// An identifier at `p`.
pub open spec fn ident(ts: Seq<TokenModel>, p: nat) -> Parsed<Seq<char>> {
    match kind(ts, p) {
        Tok::Ident(s) => Ok((s, p + 1)),
        _ => Err(expected(ts, p, "identifier"@)),
    }
}

/// The error that a native type stands where only managed types may.
pub open spec fn native_error(ts: Seq<TokenModel>, p: nat, name: Seq<char>) -> ErrorModel {
    error_here(ts, p, "native Rust type `"@
        + name
        + "` is not allowed in the IDL; use the DynSpire managed type instead (DString / DVec<T> / DOption<T>)"@)
}

/// The type that a name alone stands for: a number type, a managed string, or
/// a declared type.
pub open spec fn named_type(name: Seq<char>) -> Ty {
    if name == "bool"@ {
        Ty::Bool
    } else if name == "u8"@ {
        Ty::U8
    } else if name == "u16"@ {
        Ty::U16
    } else if name == "u32"@ {
        Ty::U32
    } else if name == "u64"@ {
        Ty::U64
    } else if name == "i8"@ {
        Ty::I8
    } else if name == "i16"@ {
        Ty::I16
    } else if name == "i32"@ {
        Ty::I32
    } else if name == "i64"@ {
        Ty::I64
    } else if name == "f32"@ {
        Ty::F32
    } else if name == "f64"@ {
        Ty::F64
    } else if name == "DString"@ {
        Ty::DString
    } else if name == "DStr"@ {
        Ty::DStr
    } else {
        Ty::Named(name)
    }
}

/// `<T>` at `p`: the type `T`.
pub open spec fn generic(ts: Seq<TokenModel>, p: nat, native: bool) -> Parsed<Ty>
    decreases left(ts, p), 1nat,
{
    if p >= ts.len() {
        Err(expected(ts, p, Tok::Lt.kind_name()))
    } else {
        match eat(ts, p, Tok::Lt) {
            Err(e) => Err(e),
            Ok(q) => match ty(ts, q, native) {
                Err(e) => Err(e),
                Ok((t, r)) => match eat(ts, r, Tok::Gt) {
                    Err(e) => Err(e),
                    Ok(s) => Ok((t, s)),
                },
            },
        }
    }
}

/// The type that starts with the name before `p`.
pub open spec fn after_name(
    ts: Seq<TokenModel>,
    name: Seq<char>,
    p: nat,
    native: bool,
) -> Parsed<Ty>
    decreases left(ts, p), 2nat,
{
    if name == "DVec"@ {
        match generic(ts, p, native) {
            Ok((t, q)) => Ok((Ty::DVec(Box::new(t)), q)),
            Err(e) => Err(e),
        }
    } else if name == "DOption"@ {
        match generic(ts, p, native) {
            Ok((t, q)) => Ok((Ty::DOption(Box::new(t)), q)),
            Err(e) => Err(e),
        }
    } else if name == "DSlice"@ {
        match generic(ts, p, native) {
            Ok((t, q)) => Ok((Ty::DSlice(Box::new(t)), q)),
            Err(e) => Err(e),
        }
    } else if name == "str"@ {
        Err(native_error(ts, p, name))
    } else if name == "String"@ || name == "Vec"@ || name == "Option"@ {
        if !native {
            Err(native_error(ts, p, name))
        } else if name == "String"@ {
            Ok((Ty::String, p))
        } else {
            match generic(ts, p, native) {
                Ok((t, q)) => Ok(
                    (
                        if name == "Vec"@ {
                            Ty::Vec(Box::new(t))
                        } else {
                            Ty::Option(Box::new(t))
                        },
                        q,
                    ),
                ),
                Err(e) => Err(e),
            }
        }
    } else {
        Ok((named_type(name), p))
    }
}

/// Whether the tokens from `p` are `[u8]`.
pub open spec fn is_byte_slice(ts: Seq<TokenModel>, p: nat) -> bool {
    &&& p + 2 < ts.len()
    &&& kind(ts, p) is LBracket
    &&& kind(ts, p + 1) == Tok::Ident("u8"@)
    &&& kind(ts, p + 2) is RBracket
}

/// A borrowed type after its `&`: `str`, `[u8]`, `mut` and a vector to fill,
/// or any type.
pub open spec fn borrow(ts: Seq<TokenModel>, p: nat, native: bool) -> Parsed<Ty>
    decreases left(ts, p), 5nat,
{
    if p >= ts.len() {
        Err(expected(ts, p, "identifier"@))
    } else if kind(ts, p) is Mut {
        match ty(ts, p + 1, true) {
            Err(e) => Err(e),
            Ok((t, q)) => match t {
                Ty::DVec(_) => Ok((Ty::RefMut(Box::new(t)), q)),
                Ty::Vec(b) => if *b is U8 {
                    Ok((Ty::OutU8Vec, q))
                } else {
                    Err(
                        error_here(
                            ts,
                            q,
                            "expected `DVec<T>` after `&mut` (only DVec out-params are supported)"@,
                        ),
                    )
                },
                _ => Err(
                    error_here(
                        ts,
                        q,
                        "expected `DVec<T>` after `&mut` (only DVec out-params are supported)"@,
                    ),
                ),
            },
        }
    } else if kind(ts, p) == Tok::Ident("str"@) {
        Ok((Ty::Str, p + 1))
    } else if is_byte_slice(ts, p) {
        Ok((Ty::U8Slice, p + 3))
    } else {
        match ty(ts, p, native) {
            Err(e) => Err(e),
            Ok((t, q)) => Ok((Ty::Ref(Box::new(t)), q)),
        }
    }
}

/// The elements of a tuple from the comma at `p` on, after `elems`.
pub open spec fn tuple_rest(
    ts: Seq<TokenModel>,
    p: nat,
    native: bool,
    elems: Seq<Ty>,
) -> Parsed<Seq<Ty>>
    decreases left(ts, p), 1nat,
{
    if p >= ts.len() {
        Err(expected(ts, p, Tok::Comma.kind_name()))
    } else {
        match eat(ts, p, Tok::Comma) {
            Err(e) => Err(e),
            Ok(q) => if kind(ts, q) is RParen {
                Ok((elems, q + 1))
            } else {
                match ty(ts, q, native) {
                    Err(e) => Err(e),
                    Ok((t, r)) => if kind(ts, r) is RParen {
                        Ok((elems.push(t), r + 1))
                    } else {
                        tuple_rest(ts, past(p, r), native, elems.push(t))
                    },
                }
            },
        }
    }
}

/// A type in parentheses at `p`: unit, one type, or a tuple of 2 to 8 types.
pub open spec fn paren(ts: Seq<TokenModel>, p: nat, native: bool) -> Parsed<Ty>
    decreases left(ts, p), 3nat,
{
    if p >= ts.len() {
        Err(expected(ts, p, Tok::LParen.kind_name()))
    } else {
        match eat(ts, p, Tok::LParen) {
            Err(e) => Err(e),
            Ok(q) => if kind(ts, q) is RParen {
                Ok((Ty::Unit, q + 1))
            } else {
                match ty(ts, q, native) {
                    Err(e) => Err(e),
                    Ok((first, r)) => if kind(ts, r) is RParen {
                        Ok((first, r + 1))
                    } else {
                        match tuple_rest(ts, past(p, r), native, seq![first]) {
                            Err(e) => Err(e),
                            Ok((elems, s)) => if elems.len() < 2 {
                                Err(error_here(ts, p, "tuples must have at least 2 elements"@))
                            } else if elems.len() > 8 {
                                Err(
                                    error_here(
                                        ts,
                                        p,
                                        "tuples support at most 8 elements (slot limit)"@,
                                    ),
                                )
                            } else {
                                Ok((Ty::Tuple(elems), s))
                            },
                        }
                    },
                }
            },
        }
    }
}

/// An array type at `p`: its length is a positive multiple of 8.
pub open spec fn array(ts: Seq<TokenModel>, p: nat, native: bool) -> Parsed<Ty>
    decreases left(ts, p), 3nat,
{
    if p >= ts.len() {
        Err(expected(ts, p, Tok::LBracket.kind_name()))
    } else {
        match eat(ts, p, Tok::LBracket) {
            Err(e) => Err(e),
            Ok(q) => match ty(ts, q, native) {
                Err(e) => Err(e),
                Ok((inner, r)) => match eat(ts, r, Tok::Semicolon) {
                    Err(e) => Err(e),
                    Ok(s) => match kind(ts, s) {
                        Tok::Int(len) => match eat(ts, s + 1, Tok::RBracket) {
                            Err(e) => Err(e),
                            Ok(u) => if len == 0 {
                                Err(error_here(ts, u, "array length must be at least 1"@))
                            } else if len % 8 != 0 {
                                Err(error_here(ts, u, "array length must be a multiple of 8 (slot alignment), got "@
                                    + dec(len as nat)))
                            } else {
                                Ok((Ty::Array(Box::new(inner), len as nat), u))
                            },
                        },
                        _ => Err(expected(ts, s, "integer for array length"@)),
                    },
                },
            },
        }
    }
}

/// A type at `p`. Native strings, vectors and options stand by value only
/// where `native` allows them.
pub open spec fn ty(ts: Seq<TokenModel>, p: nat, native: bool) -> Parsed<Ty>
    decreases left(ts, p), 4nat,
{
    if p >= ts.len() {
        Err(expected(ts, p, "identifier"@))
    } else if kind(ts, p) is Amp {
        borrow(ts, p + 1, native)
    } else if kind(ts, p) is LParen {
        paren(ts, p, native)
    } else if kind(ts, p) is LBracket {
        array(ts, p, native)
    } else {
        match ident(ts, p) {
            Err(e) => Err(e),
            Ok((name, q)) => after_name(ts, name, q, native),
        }
    }
}

/// The fields of a struct from `p` on, after `acc`, with the closing brace. A
/// comma may follow the last.
pub open spec fn struct_fields(
    ts: Seq<TokenModel>,
    p: nat,
    acc: Seq<(Seq<char>, Ty)>,
) -> Parsed<Seq<(Seq<char>, Ty)>>
    decreases left(ts, p),
{
    if p >= ts.len() {
        Err(expected(ts, p, "identifier"@))
    } else if kind(ts, p) is RBrace {
        Ok((acc, p + 1))
    } else {
        match ident(ts, p) {
            Err(e) => Err(e),
            Ok((name, q)) => match eat(ts, q, Tok::Colon) {
                Err(e) => Err(e),
                Ok(r) => match ty(ts, r, true) {
                    Err(e) => Err(e),
                    Ok((t, s)) => if kind(ts, s) is Comma {
                        struct_fields(ts, past(p, s + 1), acc.push((name, t)))
                    } else {
                        match eat(ts, s, Tok::RBrace) {
                            Err(e) => Err(e),
                            Ok(u) => Ok((acc.push((name, t)), u)),
                        }
                    },
                },
            },
        }
    }
}

/// A struct declaration at `p`.
pub open spec fn struct_decl(ts: Seq<TokenModel>, p: nat) -> Parsed<Decl> {
    match eat(ts, p, Tok::Struct) {
        Err(e) => Err(e),
        Ok(q) => match ident(ts, q) {
            Err(e) => Err(e),
            Ok((name, r)) => match eat(ts, r, Tok::LBrace) {
                Err(e) => Err(e),
                Ok(s) => match struct_fields(ts, s, Seq::empty()) {
                    Err(e) => Err(e),
                    Ok((fields, u)) => Ok((Decl::Struct(StructModel { name, fields }), u)),
                },
            },
        },
    }
}

/// The field types of a variant from `p` on, after `acc`, with the closing
/// parenthesis.
pub open spec fn variant_types(ts: Seq<TokenModel>, p: nat, acc: Seq<Ty>) -> Parsed<Seq<Ty>>
    decreases left(ts, p),
{
    if p >= ts.len() {
        Err(expected(ts, p, "identifier"@))
    } else if kind(ts, p) is RParen {
        Ok((acc, p + 1))
    } else {
        match ty(ts, p, true) {
            Err(e) => Err(e),
            Ok((t, q)) => if kind(ts, q) is Comma {
                variant_types(ts, past(p, q + 1), acc.push(t))
            } else {
                match eat(ts, q, Tok::RParen) {
                    Err(e) => Err(e),
                    Ok(r) => Ok((acc.push(t), r)),
                }
            },
        }
    }
}

/// A variant at `p`: a name, and field types in parentheses if it has any.
pub open spec fn variant(ts: Seq<TokenModel>, p: nat) -> Parsed<VariantModel> {
    match ident(ts, p) {
        Err(e) => Err(e),
        Ok((name, q)) => if kind(ts, q) is LParen {
            match variant_types(ts, q + 1, Seq::empty()) {
                Err(e) => Err(e),
                Ok((fields, r)) => Ok((VariantModel { name, fields }, r)),
            }
        } else {
            Ok((VariantModel { name, fields: Seq::empty() }, q))
        },
    }
}

/// The variants of an enum from `p` on, after `acc`, with the closing brace.
pub open spec fn enum_variants(
    ts: Seq<TokenModel>,
    p: nat,
    acc: Seq<VariantModel>,
) -> Parsed<Seq<VariantModel>>
    decreases left(ts, p),
{
    if p >= ts.len() {
        Err(expected(ts, p, "identifier"@))
    } else if kind(ts, p) is RBrace {
        Ok((acc, p + 1))
    } else {
        match variant(ts, p) {
            Err(e) => Err(e),
            Ok((v, q)) => if kind(ts, q) is Comma {
                enum_variants(ts, past(p, q + 1), acc.push(v))
            } else {
                match eat(ts, q, Tok::RBrace) {
                    Err(e) => Err(e),
                    Ok(r) => Ok((acc.push(v), r)),
                }
            },
        }
    }
}

/// An enum declaration at `p`.
pub open spec fn enum_decl(ts: Seq<TokenModel>, p: nat) -> Parsed<Decl> {
    match eat(ts, p, Tok::Enum) {
        Err(e) => Err(e),
        Ok(q) => match ident(ts, q) {
            Err(e) => Err(e),
            Ok((name, r)) => match eat(ts, r, Tok::LBrace) {
                Err(e) => Err(e),
                Ok(s) => match enum_variants(ts, s, Seq::empty()) {
                    Err(e) => Err(e),
                    Ok((variants, u)) => Ok((Decl::Enum(EnumModel { name, variants }), u)),
                },
            },
        },
    }
}

/// An opaque declaration at `p`.
pub open spec fn opaque_decl(ts: Seq<TokenModel>, p: nat) -> Parsed<Decl> {
    match eat(ts, p, Tok::Opaque) {
        Err(e) => Err(e),
        Ok(q) => match eat(ts, q, Tok::Struct) {
            Err(e) => Err(e),
            Ok(r) => match ident(ts, r) {
                Err(e) => Err(e),
                Ok((name, s)) => match eat(ts, s, Tok::Semicolon) {
                    Err(e) => Err(e),
                    Ok(u) => Ok((Decl::Opaque(name), u)),
                },
            },
        },
    }
}

/// The parameters of a method from `p` on, after `acc`, with the closing
/// parenthesis.
pub open spec fn method_params(
    ts: Seq<TokenModel>,
    p: nat,
    acc: Seq<ParamModel>,
) -> Parsed<Seq<ParamModel>>
    decreases left(ts, p),
{
    if p >= ts.len() {
        Err(expected(ts, p, "identifier"@))
    } else if kind(ts, p) is RParen {
        Ok((acc, p + 1))
    } else {
        match ident(ts, p) {
            Err(e) => Err(e),
            Ok((name, q)) => match eat(ts, q, Tok::Colon) {
                Err(e) => Err(e),
                Ok(r) => match ty(ts, r, false) {
                    Err(e) => Err(e),
                    Ok((t, s)) => if kind(ts, s) is Comma {
                        method_params(ts, past(p, s + 1), acc.push(ParamModel { name, ty: t }))
                    } else {
                        match eat(ts, s, Tok::RParen) {
                            Err(e) => Err(e),
                            Ok(u) => Ok((acc.push(ParamModel { name, ty: t }), u)),
                        }
                    },
                },
            },
        }
    }
}

/// A method at `p`: name, parameters, arrow and return type.
pub open spec fn method(ts: Seq<TokenModel>, p: nat) -> Parsed<MethodModel> {
    match eat(ts, p, Tok::Fn) {
        Err(e) => Err(e),
        Ok(q) => match ident(ts, q) {
            Err(e) => Err(e),
            Ok((name, r)) => match eat(ts, r, Tok::LParen) {
                Err(e) => Err(e),
                Ok(s) => match method_params(ts, s, Seq::empty()) {
                    Err(e) => Err(e),
                    Ok((params, u)) => match eat(ts, u, Tok::Arrow) {
                        Err(e) => Err(e),
                        Ok(v) => match ty(ts, v, true) {
                            Err(e) => Err(e),
                            Ok((return_type, w)) => match eat(ts, w, Tok::Semicolon) {
                                Err(e) => Err(e),
                                Ok(x) => Ok((MethodModel { name, params, return_type }, x)),
                            },
                        },
                    },
                },
            },
        },
    }
}

/// The include directives from `p` on, after `acc`.
pub open spec fn directives(
    ts: Seq<TokenModel>,
    p: nat,
    acc: Seq<Seq<char>>,
) -> Parsed<Seq<Seq<char>>>
    decreases left(ts, p),
{
    if p >= ts.len() || kind(ts, p) !is Include {
        Ok((acc, p))
    } else {
        match kind(ts, p + 1) {
            Tok::Str(s) => match eat(ts, p + 2, Tok::Semicolon) {
                Err(e) => Err(e),
                Ok(q) => directives(ts, q, acc.push(s)),
            },
            _ => Err(expected(ts, p + 1, "string literal after `include`"@)),
        }
    }
}

/// The type declaration at `p`, if the token there starts one.
pub open spec fn type_decl(ts: Seq<TokenModel>, p: nat) -> Option<Parsed<Decl>> {
    match kind(ts, p) {
        Tok::Struct => Some(struct_decl(ts, p)),
        Tok::Enum => Some(enum_decl(ts, p)),
        Tok::Opaque => Some(opaque_decl(ts, p)),
        _ => None,
    }
}

/// The declarations and methods of an interface from `p` on, after those at
/// hand, with the closing brace.
pub open spec fn items(
    ts: Seq<TokenModel>,
    p: nat,
    types: Seq<Decl>,
    methods: Seq<MethodModel>,
) -> Parsed<(Seq<Decl>, Seq<MethodModel>)>
    decreases left(ts, p),
{
    if p >= ts.len() {
        Err(expected(ts, p, Tok::RBrace.kind_name()))
    } else if kind(ts, p) is RBrace {
        Ok(((types, methods), p + 1))
    } else if kind(ts, p) is Eof {
        Err(error_here(ts, p, "unexpected end of file, missing `}`"@))
    } else if kind(ts, p) is Fn {
        match method(ts, p) {
            Err(e) => Err(e),
            Ok((m, q)) => items(ts, past(p, q), types, methods.push(m)),
        }
    } else {
        match type_decl(ts, p) {
            None => Err(expected(ts, p, "type declaration or `fn`"@)),
            Some(Err(e)) => Err(e),
            Some(Ok((d, q))) => items(ts, past(p, q), types.push(d), methods),
        }
    }
}

/// An interface at `p`. It has at least one method.
pub open spec fn interface(
    ts: Seq<TokenModel>,
    p: nat,
    includes: Seq<Seq<char>>,
) -> Parsed<InterfaceModel> {
    match eat(ts, p, Tok::Interface) {
        Err(e) => Err(e),
        Ok(q) => match ident(ts, q) {
            Err(e) => Err(e),
            Ok((name, r)) => match eat(ts, r, Tok::LBrace) {
                Err(e) => Err(e),
                Ok(s) => match items(ts, s, Seq::empty(), Seq::empty()) {
                    Err(e) => Err(e),
                    Ok(((types, methods), u)) => if methods.len() == 0 {
                        Err(error_here(ts, u, "interface `"@ + name + "` has no methods"@))
                    } else {
                        Ok((InterfaceModel { name, includes, types, methods }, u))
                    },
                },
            },
        },
    }
}

/// The interface that a token list spells: include directives, one interface,
/// and nothing after it.
pub open spec fn source_file(ts: Seq<TokenModel>) -> Result<InterfaceModel, ErrorModel> {
    match directives(ts, 0, Seq::empty()) {
        Err(e) => Err(e),
        Ok((includes, p)) => match interface(ts, p, includes) {
            Err(e) => Err(e),
            Ok((iface, q)) => if kind(ts, q) is Eof {
                Ok(iface)
            } else {
                Err(error_here(ts, q, "trailing tokens after interface definition"@))
            },
        },
    }
}

/// The interface that a source spells.
pub open spec fn parse_model(src: Seq<u8>) -> Result<InterfaceModel, ErrorModel> {
    match tokens(src) {
        Err(e) => Err(e),
        Ok(ts) => source_file(ts),
    }
}

/// The declarations of a fragment from `p` on, after `acc`.
pub open spec fn fragment_decls(
    ts: Seq<TokenModel>,
    p: nat,
    acc: Seq<Decl>,
) -> Result<Seq<Decl>, ErrorModel>
    decreases left(ts, p),
{
    if p >= ts.len() || kind(ts, p) is Eof {
        Ok(acc)
    } else if kind(ts, p) is Fn {
        Err(
            error_here(
                ts,
                p,
                "method declarations (`fn`) are not allowed in type fragments"@,
            ),
        )
    } else {
        match type_decl(ts, p) {
            None => Err(expected(ts, p, "type declaration in fragment"@)),
            Some(Err(e)) => Err(e),
            Some(Ok((d, q))) => fragment_decls(ts, past(p, q), acc.push(d)),
        }
    }
}

/// The declarations and include directives that a fragment spells.
pub open spec fn fragment_model(src: Seq<u8>) -> Result<(Seq<Decl>, Seq<Seq<char>>), ErrorModel> {
    match tokens(src) {
        Err(e) => Err(e),
        Ok(ts) => match directives(ts, 0, Seq::empty()) {
            Err(e) => Err(e),
            Ok((includes, p)) => match fragment_decls(ts, p, Seq::empty()) {
                Err(e) => Err(e),
                Ok(types) => Ok((types, includes)),
            },
        },
    }
}

// ---------------------------------------------------------------------------
// The parser
// ---------------------------------------------------------------------------

/// A token list and a position in it.
pub struct Parser {
    tokens: Vec<Token>,
    pos: usize,
}

/// How far a step of the parser got: it keeps the tokens and moves on.
pub open spec fn moved(before: &Parser, after: &Parser) -> bool {
    &&& after.wf()
    &&& after.ts() == before.ts()
    &&& before.at() < after.at()
}

impl Parser {
    /// The tokens.
    pub closed spec fn ts(&self) -> Seq<TokenModel> {
        token_models(self.tokens@)
    }

    /// The position.
    pub closed spec fn at(&self) -> nat {
        self.pos as nat
    }

    /// The list ends with the end of the file, and the position lies in it.
    pub closed spec fn wf(&self) -> bool {
        &&& ends_with_eof(token_models(self.tokens@))
        &&& self.pos < self.tokens@.len()
    }

    fn new(tokens: Vec<Token>) -> (r: Parser)
        requires
            ends_with_eof(token_models(tokens@)),
        ensures
            r.wf(),
            r.ts() == token_models(tokens@),
            r.at() == 0,
    {
        Parser { tokens, pos: 0 }
    }

    fn peek(&self) -> (r: &TokenKind)
        requires
            self.wf(),
        ensures
            r@ == kind(self.ts(), self.at()),
            self.at() < self.ts().len(),
    {
        &self.tokens[self.pos].kind
    }

    fn at_eof(&self) -> (r: bool)
        requires
            self.wf(),
        ensures
            r == (kind(self.ts(), self.at()) is Eof),
            self.at() < self.ts().len(),
    {
        matches!(self.peek(), TokenKind::Eof)
    }

    fn advance(&mut self)
        requires
            old(self).wf(),
            kind(old(self).ts(), old(self).at()) !is Eof,
        ensures
            moved(old(self), final(self)),
            final(self).at() == old(self).at() + 1,
    {
        assert(self.pos < self.tokens.len());
        self.pos = self.pos + 1;
    }

    fn err(&self, msg: String) -> (r: ParseError)
        requires
            self.wf(),
        ensures
            r@ == error_here(self.ts(), self.at(), msg@),
    {
        let t = &self.tokens[self.pos];
        ParseError { line: t.line, col: t.col, msg }
    }

    fn expected(&self, what: &str) -> (r: ParseError)
        requires
            self.wf(),
        ensures
            r@ == expected(self.ts(), self.at(), what@),
    {
        let found = self.peek().kind_name();
        self.err(String::from_str("expected ").concat(what).concat(", found ").concat(found))
    }

    /// Consumes the token `expected`, or fails.
    fn eat(&mut self, expected: TokenKind) -> (r: Result<(), ParseError>)
        requires
            old(self).wf(),
            expected@ !is Eof,
        ensures
            match eat(old(self).ts(), old(self).at(), expected@) {
                Ok(q) => r is Ok && moved(old(self), final(self)) && final(self).at() == q,
                Err(e) => r is Err && r->Err_0@ == e,
            },
    {
        if self.peek().is(&expected) {
            self.advance();
            Ok(())
        } else {
            Err(self.expected(expected.kind_name()))
        }
    }

    /// Consumes the token `expected` if it is next.
    fn check_eat(&mut self, expected: &TokenKind) -> (r: bool)
        requires
            old(self).wf(),
            expected@ !is Eof,
        ensures
            r == (kind(old(self).ts(), old(self).at()) == expected@),
            r ==> moved(old(self), final(self)) && final(self).at() == old(self).at() + 1,
            !r ==> *final(self) == *old(self),
    {
        if self.peek().is(expected) {
            self.advance();
            true
        } else {
            false
        }
    }

    /// Consumes an identifier, or fails.
    fn expect_ident(&mut self) -> (r: Result<String, ParseError>)
        requires
            old(self).wf(),
        ensures
            match ident(old(self).ts(), old(self).at()) {
                Ok((name, q)) => r is Ok && r->Ok_0@ == name && moved(old(self), final(self))
                    && final(self).at() == q,
                Err(e) => r is Err && r->Err_0@ == e,
            },
    {
        match self.peek() {
            TokenKind::Ident(s) => {
                let name = s.clone();
                self.advance();
                Ok(name)
            },
            _ => Err(self.expected("identifier")),
        }
    }

    fn type_from_ident(name: &str) -> (r: FieldType)
        ensures
            r@ == named_type(name@),
    {
        if same(name, "bool") {
            FieldType::Bool
        } else if same(name, "u8") {
            FieldType::U8
        } else if same(name, "u16") {
            FieldType::U16
        } else if same(name, "u32") {
            FieldType::U32
        } else if same(name, "u64") {
            FieldType::U64
        } else if same(name, "i8") {
            FieldType::I8
        } else if same(name, "i16") {
            FieldType::I16
        } else if same(name, "i32") {
            FieldType::I32
        } else if same(name, "i64") {
            FieldType::I64
        } else if same(name, "f32") {
            FieldType::F32
        } else if same(name, "f64") {
            FieldType::F64
        } else if same(name, "DString") {
            FieldType::DString
        } else if same(name, "DStr") {
            FieldType::DStr
        } else {
            FieldType::Named(String::from_str(name))
        }
    }

    /// `<T>`.
    fn parse_generic(&mut self, native: bool) -> (r: Result<FieldType, ParseError>)
        requires
            old(self).wf(),
        ensures
            match generic(old(self).ts(), old(self).at(), native) {
                Ok((t, q)) => r is Ok && r->Ok_0@ == t && moved(old(self), final(self))
                    && final(self).at() == q,
                Err(e) => r is Err && r->Err_0@ == e,
            },
        decreases left(old(self).ts(), old(self).at()), 1nat,
    {
        match self.eat(TokenKind::Lt) {
            Err(e) => {
                return Err(e);
            },
            Ok(_) => {},
        }
        let inner = match self.parse_type(native) {
            Err(e) => {
                return Err(e);
            },
            Ok(t) => t,
        };
        match self.eat(TokenKind::Gt) {
            Err(e) => Err(e),
            Ok(_) => Ok(inner),
        }
    }

    /// The rest of a type after its first name.
    fn parse_after_name(&mut self, name: String, native: bool) -> (r: Result<
        FieldType,
        ParseError,
    >)
        requires
            old(self).wf(),
        ensures
            match after_name(old(self).ts(), name@, old(self).at(), native) {
                Ok((t, q)) => r is Ok && r->Ok_0@ == t && final(self).wf() && final(self).ts()
                    == old(self).ts() && old(self).at() <= final(self).at() && final(self).at()
                    == q,
                Err(e) => r is Err && r->Err_0@ == e,
            },
        decreases left(old(self).ts(), old(self).at()), 2nat,
    {
        let n = name.as_str();
        if same(n, "DVec") {
            match self.parse_generic(native) {
                Ok(t) => Ok(FieldType::DVec(Box::new(t))),
                Err(e) => Err(e),
            }
        } else if same(n, "DOption") {
            match self.parse_generic(native) {
                Ok(t) => Ok(FieldType::DOption(Box::new(t))),
                Err(e) => Err(e),
            }
        } else if same(n, "DSlice") {
            match self.parse_generic(native) {
                Ok(t) => Ok(FieldType::DSlice(Box::new(t))),
                Err(e) => Err(e),
            }
        } else if same(n, "str") {
            Err(self.native_error(n))
        } else if same(n, "String") {
            if native {
                Ok(FieldType::String)
            } else {
                Err(self.native_error(n))
            }
        } else if same(n, "Vec") {
            if !native {
                return Err(self.native_error(n));
            }
            match self.parse_generic(native) {
                Ok(t) => Ok(FieldType::Vec(Box::new(t))),
                Err(e) => Err(e),
            }
        } else if same(n, "Option") {
            if !native {
                return Err(self.native_error(n));
            }
            proof {
                reveal_strlit("Vec");
                reveal_strlit("Option");
            }
            match self.parse_generic(native) {
                Ok(t) => Ok(FieldType::Option(Box::new(t))),
                Err(e) => Err(e),
            }
        } else {
            Ok(Parser::type_from_ident(n))
        }
    }

    fn native_error(&self, name: &str) -> (r: ParseError)
        requires
            self.wf(),
        ensures
            r@ == native_error(self.ts(), self.at(), name@),
    {
        self.err(String::from_str("native Rust type `")
            .concat(name)
            .concat("` is not allowed in the IDL; use the DynSpire managed type instead (DString / DVec<T> / DOption<T>)"))
    }

    /// Whether `[u8]` is next.
    fn at_byte_slice(&self) -> (r: bool)
        requires
            self.wf(),
        ensures
            r == is_byte_slice(self.ts(), self.at()),
    {
        if self.tokens.len() - self.pos <= 2 {
            return false;
        }
        if !matches!(self.tokens[self.pos].kind, TokenKind::LBracket) {
            return false;
        }
        if !matches!(self.tokens[self.pos + 2].kind, TokenKind::RBracket) {
            return false;
        }
        match &self.tokens[self.pos + 1].kind {
            TokenKind::Ident(s) => same(s.as_str(), "u8"),
            _ => false,
        }
    }

    /// The type after `&`.
    fn parse_borrow_type(&mut self, native: bool) -> (r: Result<FieldType, ParseError>)
        requires
            old(self).wf(),
        ensures
            match borrow(old(self).ts(), old(self).at(), native) {
                Ok((t, q)) => r is Ok && r->Ok_0@ == t && moved(old(self), final(self))
                    && final(self).at() == q,
                Err(e) => r is Err && r->Err_0@ == e,
            },
        decreases left(old(self).ts(), old(self).at()), 5nat,
    {
        proof {
            reveal_with_fuel(FieldType::model, 2);
        }
        if matches!(self.peek(), TokenKind::Mut) {
            self.advance();
            let inner = match self.parse_type(true) {
                Err(e) => {
                    return Err(e);
                },
                Ok(t) => t,
            };
            if matches!(inner, FieldType::DVec(_)) {
                return Ok(FieldType::RefMut(Box::new(inner)));
            }
            if let FieldType::Vec(b) = &inner {
                if matches!(&**b, FieldType::U8) {
                    return Ok(FieldType::OutU8Vec);
                }
            }
            return Err(
                self.err(
                    String::from_str(
                        "expected `DVec<T>` after `&mut` (only DVec out-params are supported)",
                    ),
                ),
            );
        }
        let is_str = match self.peek() {
            TokenKind::Ident(s) => same(s.as_str(), "str"),
            _ => false,
        };
        if is_str {
            self.advance();
            return Ok(FieldType::Str);
        }
        if self.at_byte_slice() {
            self.advance();
            self.advance();
            self.advance();
            return Ok(FieldType::U8Slice);
        }
        match self.parse_type(native) {
            Err(e) => Err(e),
            Ok(t) => Ok(FieldType::Ref(Box::new(t))),
        }
    }

    /// The elements of a tuple from the comma on.
    fn parse_tuple_rest(&mut self, native: bool, first: Vec<FieldType>) -> (r: Result<Vec<FieldType>, ParseError>)
        requires
            old(self).wf(),
        ensures
            match tuple_rest(old(self).ts(), old(self).at(), native, types_model(first@)) {
                Ok((v, q)) => r is Ok && types_model(r->Ok_0@) == v && moved(old(self), final(self))
                    && final(self).at() == q,
                Err(e) => r is Err && r->Err_0@ == e,
            },
        decreases left(old(self).ts(), old(self).at()), 1nat,
    {
        let ghost ts = self.ts();
        let mut acc = first;
        loop
            invariant
                self.wf(),
                self.ts() == ts,
                ts == old(self).ts(),
                old(self).at() <= self.at(),
                tuple_rest(ts, old(self).at(), native, types_model(first@)) == tuple_rest(
                    ts,
                    self.at(),
                    native, types_model(acc@),
                ),
            decreases left(ts, self.at()),
        {
            let ghost before = types_model(acc@);
            let ghost here = self.at();
            match self.eat(TokenKind::Comma) {
                Err(e) => {
                    return Err(e);
                },
                Ok(_) => {},
            }
            if self.check_eat(&TokenKind::RParen) {
                return Ok(acc);
            }
            let t = match self.parse_type(native) {
                Err(e) => {
                    return Err(e);
                },
                Ok(v) => v,
            };
            let ghost tm = t@;
            acc.push(t);
            assert(types_model(acc@) =~= before.push(tm));
            if self.check_eat(&TokenKind::RParen) {
                return Ok(acc);
            }
        }
    }

    /// A type in parentheses.
    fn parse_paren_type(&mut self, native: bool) -> (r: Result<FieldType, ParseError>)
        requires
            old(self).wf(),
        ensures
            match paren(old(self).ts(), old(self).at(), native) {
                Ok((t, q)) => r is Ok && r->Ok_0@ == t && moved(old(self), final(self))
                    && final(self).at() == q,
                Err(e) => r is Err && r->Err_0@ == e,
            },
        decreases left(old(self).ts(), old(self).at()), 3nat,
    {
        let line: usize = self.tokens[self.pos].line;
        let col: usize = self.tokens[self.pos].col;
        match self.eat(TokenKind::LParen) {
            Err(e) => {
                return Err(e);
            },
            Ok(_) => {},
        }
        if self.check_eat(&TokenKind::RParen) {
            return Ok(FieldType::Unit);
        }
        let first = match self.parse_type(native) {
            Err(e) => {
                return Err(e);
            },
            Ok(v) => v,
        };
        if self.check_eat(&TokenKind::RParen) {
            return Ok(first);
        }
        let ghost fm = first@;
        let mut elems: Vec<FieldType> = Vec::new();
        elems.push(first);
        assert(types_model(elems@) =~= seq![fm]);
        let elems = match self.parse_tuple_rest(native, elems) {
            Err(e) => {
                return Err(e);
            },
            Ok(v) => v,
        };
        if elems.len() < 2 {
            return Err(
                ParseError {
                    line,
                    col,
                    msg: String::from_str("tuples must have at least 2 elements"),
                },
            );
        }
        if elems.len() > 8 {
            return Err(
                ParseError {
                    line,
                    col,
                    msg: String::from_str("tuples support at most 8 elements (slot limit)"),
                },
            );
        }
        let t = FieldType::Tuple(elems);
        assert(t@->Tuple_0 =~= types_model(elems@));
        Ok(t)
    }

    /// An array type.
    fn parse_array_type(&mut self, native: bool) -> (r: Result<FieldType, ParseError>)
        requires
            old(self).wf(),
        ensures
            match array(old(self).ts(), old(self).at(), native) {
                Ok((t, q)) => r is Ok && r->Ok_0@ == t && moved(old(self), final(self))
                    && final(self).at() == q,
                Err(e) => r is Err && r->Err_0@ == e,
            },
        decreases left(old(self).ts(), old(self).at()), 3nat,
    {
        match self.eat(TokenKind::LBracket) {
            Err(e) => {
                return Err(e);
            },
            Ok(_) => {},
        }
        let inner = match self.parse_type(native) {
            Err(e) => {
                return Err(e);
            },
            Ok(v) => v,
        };
        match self.eat(TokenKind::Semicolon) {
            Err(e) => {
                return Err(e);
            },
            Ok(_) => {},
        }
        let len: usize = match self.peek() {
            TokenKind::Int(n) => *n,
            _ => {
                return Err(self.expected("integer for array length"));
            },
        };
        self.advance();
        match self.eat(TokenKind::RBracket) {
            Err(e) => {
                return Err(e);
            },
            Ok(_) => {},
        }
        if len == 0 {
            return Err(self.err(String::from_str("array length must be at least 1")));
        }
        if len % 8 != 0 {
            return Err(self.err(String::from_str("array length must be a multiple of 8 (slot alignment), got ")
                .concat(decimal(len as u64).as_str())));
        }
        Ok(FieldType::Array(Box::new(inner), len))
    }

    /// A type. Native strings, vectors and options stand by value only where
    /// `native` allows them.
    fn parse_type(&mut self, native: bool) -> (r: Result<FieldType, ParseError>)
        requires
            old(self).wf(),
        ensures
            match ty(old(self).ts(), old(self).at(), native) {
                Ok((t, q)) => r is Ok && r->Ok_0@ == t && moved(old(self), final(self))
                    && final(self).at() == q,
                Err(e) => r is Err && r->Err_0@ == e,
            },
        decreases left(old(self).ts(), old(self).at()), 4nat,
    {
        match self.peek() {
            TokenKind::Amp => {
                self.advance();
                self.parse_borrow_type(native)
            },
            TokenKind::LParen => self.parse_paren_type(native),
            TokenKind::LBracket => self.parse_array_type(native),
            _ => match self.expect_ident() {
                Err(e) => Err(e),
                Ok(name) => self.parse_after_name(name, native),
            },
        }
    }

    /// The fields of a struct, with the closing brace.
    fn parse_fields(&mut self, first: Vec<(String, FieldType)>) -> (r: Result<Vec<(String, FieldType)>, ParseError>)
        requires
            old(self).wf(),
        ensures
            match struct_fields(old(self).ts(), old(self).at(), fields_model(first@)) {
                Ok((v, q)) => r is Ok && fields_model(r->Ok_0@) == v && moved(old(self), final(self))
                    && final(self).at() == q,
                Err(e) => r is Err && r->Err_0@ == e,
            },
        decreases left(old(self).ts(), old(self).at()), 1nat,
    {
        let ghost ts = self.ts();
        let mut acc = first;
        loop
            invariant
                self.wf(),
                self.ts() == ts,
                ts == old(self).ts(),
                old(self).at() <= self.at(),
                struct_fields(ts, old(self).at(), fields_model(first@)) == struct_fields(
                    ts,
                    self.at(),
                    fields_model(acc@),
                ),
            decreases left(ts, self.at()),
        {
            let ghost before = fields_model(acc@);
            let ghost here = self.at();
            if self.check_eat(&TokenKind::RBrace) {
                return Ok(acc);
            }
            let name = match self.expect_ident() {
                Err(e) => {
                    return Err(e);
                },
                Ok(v) => v,
            };
            match self.eat(TokenKind::Colon) {
                Err(e) => {
                    return Err(e);
                },
                Ok(_) => {},
            }
            let t = match self.parse_type(true) {
                Err(e) => {
                    return Err(e);
                },
                Ok(v) => v,
            };
            let ghost item = (name@, t@);
            acc.push((name, t));
            assert(fields_model(acc@) =~= before.push(item));
            if !self.check_eat(&TokenKind::Comma) {
                return match self.eat(TokenKind::RBrace) {
                    Err(e) => Err(e),
                    Ok(_) => Ok(acc),
                };
            }
        }
    }

    /// A struct declaration.
    fn parse_struct(&mut self) -> (r: Result<TypeDecl, ParseError>)
        requires
            old(self).wf(),
        ensures
            match struct_decl(old(self).ts(), old(self).at()) {
                Ok((t, q)) => r is Ok && r->Ok_0@ == t && moved(old(self), final(self))
                    && final(self).at() == q,
                Err(e) => r is Err && r->Err_0@ == e,
            },
    {
        match self.eat(TokenKind::Struct) {
            Err(e) => {
                return Err(e);
            },
            Ok(_) => {},
        }
        let name = match self.expect_ident() {
            Err(e) => {
                return Err(e);
            },
            Ok(v) => v,
        };
        match self.eat(TokenKind::LBrace) {
            Err(e) => {
                return Err(e);
            },
            Ok(_) => {},
        }
        let none: Vec<(String, FieldType)> = Vec::new();
        assert(fields_model(none@) =~= Seq::empty());
        let fields = match self.parse_fields(none) {
            Err(e) => {
                return Err(e);
            },
            Ok(v) => v,
        };
        Ok(TypeDecl::Struct(StructDecl { name, fields }))
    }

    /// The field types of a variant, with the closing parenthesis.
    fn parse_variant_types(&mut self, first: Vec<FieldType>) -> (r: Result<Vec<FieldType>, ParseError>)
        requires
            old(self).wf(),
        ensures
            match variant_types(old(self).ts(), old(self).at(), types_model(first@)) {
                Ok((v, q)) => r is Ok && types_model(r->Ok_0@) == v && moved(old(self), final(self))
                    && final(self).at() == q,
                Err(e) => r is Err && r->Err_0@ == e,
            },
        decreases left(old(self).ts(), old(self).at()), 1nat,
    {
        let ghost ts = self.ts();
        let mut acc = first;
        loop
            invariant
                self.wf(),
                self.ts() == ts,
                ts == old(self).ts(),
                old(self).at() <= self.at(),
                variant_types(ts, old(self).at(), types_model(first@)) == variant_types(
                    ts,
                    self.at(),
                    types_model(acc@),
                ),
            decreases left(ts, self.at()),
        {
            let ghost before = types_model(acc@);
            let ghost here = self.at();
            if self.check_eat(&TokenKind::RParen) {
                return Ok(acc);
            }
            let t = match self.parse_type(true) {
                Err(e) => {
                    return Err(e);
                },
                Ok(v) => v,
            };
            let ghost item = t@;
            acc.push(t);
            assert(types_model(acc@) =~= before.push(item));
            if !self.check_eat(&TokenKind::Comma) {
                return match self.eat(TokenKind::RParen) {
                    Err(e) => Err(e),
                    Ok(_) => Ok(acc),
                };
            }
        }
    }

    /// A variant of an enum.
    fn parse_variant(&mut self) -> (r: Result<EnumVariant, ParseError>)
        requires
            old(self).wf(),
        ensures
            match variant(old(self).ts(), old(self).at()) {
                Ok((t, q)) => r is Ok && r->Ok_0@ == t && moved(old(self), final(self))
                    && final(self).at() == q,
                Err(e) => r is Err && r->Err_0@ == e,
            },
    {
        let name = match self.expect_ident() {
            Err(e) => {
                return Err(e);
            },
            Ok(v) => v,
        };
        let none: Vec<FieldType> = Vec::new();
        assert(types_model(none@) =~= Seq::empty());
        if self.check_eat(&TokenKind::LParen) {
            let fields = match self.parse_variant_types(none) {
                Err(e) => {
                    return Err(e);
                },
                Ok(v) => v,
            };
            Ok(EnumVariant { name, fields })
        } else {
            Ok(EnumVariant { name, fields: none })
        }
    }

    /// The variants of an enum, with the closing brace.
    fn parse_variants(&mut self, first: Vec<EnumVariant>) -> (r: Result<Vec<EnumVariant>, ParseError>)
        requires
            old(self).wf(),
        ensures
            match enum_variants(old(self).ts(), old(self).at(), variants_model(first@)) {
                Ok((v, q)) => r is Ok && variants_model(r->Ok_0@) == v && moved(old(self), final(self))
                    && final(self).at() == q,
                Err(e) => r is Err && r->Err_0@ == e,
            },
        decreases left(old(self).ts(), old(self).at()), 1nat,
    {
        let ghost ts = self.ts();
        let mut acc = first;
        loop
            invariant
                self.wf(),
                self.ts() == ts,
                ts == old(self).ts(),
                old(self).at() <= self.at(),
                enum_variants(ts, old(self).at(), variants_model(first@)) == enum_variants(
                    ts,
                    self.at(),
                    variants_model(acc@),
                ),
            decreases left(ts, self.at()),
        {
            let ghost before = variants_model(acc@);
            let ghost here = self.at();
            if self.check_eat(&TokenKind::RBrace) {
                return Ok(acc);
            }
            let v = match self.parse_variant() {
                Err(e) => {
                    return Err(e);
                },
                Ok(v) => v,
            };
            let ghost item = v@;
            acc.push(v);
            assert(variants_model(acc@) =~= before.push(item));
            if !self.check_eat(&TokenKind::Comma) {
                return match self.eat(TokenKind::RBrace) {
                    Err(e) => Err(e),
                    Ok(_) => Ok(acc),
                };
            }
        }
    }

    /// An enum declaration.
    fn parse_enum(&mut self) -> (r: Result<TypeDecl, ParseError>)
        requires
            old(self).wf(),
        ensures
            match enum_decl(old(self).ts(), old(self).at()) {
                Ok((t, q)) => r is Ok && r->Ok_0@ == t && moved(old(self), final(self))
                    && final(self).at() == q,
                Err(e) => r is Err && r->Err_0@ == e,
            },
    {
        match self.eat(TokenKind::Enum) {
            Err(e) => {
                return Err(e);
            },
            Ok(_) => {},
        }
        let name = match self.expect_ident() {
            Err(e) => {
                return Err(e);
            },
            Ok(v) => v,
        };
        match self.eat(TokenKind::LBrace) {
            Err(e) => {
                return Err(e);
            },
            Ok(_) => {},
        }
        let none: Vec<EnumVariant> = Vec::new();
        assert(variants_model(none@) =~= Seq::empty());
        let variants = match self.parse_variants(none) {
            Err(e) => {
                return Err(e);
            },
            Ok(v) => v,
        };
        let e = EnumDecl { name, variants };
        assert(e@.variants =~= variants_model(variants@));
        Ok(TypeDecl::Enum(e))
    }

    /// An opaque declaration.
    fn parse_opaque(&mut self) -> (r: Result<TypeDecl, ParseError>)
        requires
            old(self).wf(),
        ensures
            match opaque_decl(old(self).ts(), old(self).at()) {
                Ok((t, q)) => r is Ok && r->Ok_0@ == t && moved(old(self), final(self))
                    && final(self).at() == q,
                Err(e) => r is Err && r->Err_0@ == e,
            },
    {
        match self.eat(TokenKind::Opaque) {
            Err(e) => {
                return Err(e);
            },
            Ok(_) => {},
        }
        match self.eat(TokenKind::Struct) {
            Err(e) => {
                return Err(e);
            },
            Ok(_) => {},
        }
        let name = match self.expect_ident() {
            Err(e) => {
                return Err(e);
            },
            Ok(v) => v,
        };
        match self.eat(TokenKind::Semicolon) {
            Err(e) => {
                return Err(e);
            },
            Ok(_) => {},
        }
        Ok(TypeDecl::Opaque(OpaqueDecl { name }))
    }

    /// The parameters of a method, with the closing parenthesis.
    fn parse_params(&mut self, first: Vec<Param>) -> (r: Result<Vec<Param>, ParseError>)
        requires
            old(self).wf(),
        ensures
            match method_params(old(self).ts(), old(self).at(), params_model(first@)) {
                Ok((v, q)) => r is Ok && params_model(r->Ok_0@) == v && moved(old(self), final(self))
                    && final(self).at() == q,
                Err(e) => r is Err && r->Err_0@ == e,
            },
        decreases left(old(self).ts(), old(self).at()), 1nat,
    {
        let ghost ts = self.ts();
        let mut acc = first;
        loop
            invariant
                self.wf(),
                self.ts() == ts,
                ts == old(self).ts(),
                old(self).at() <= self.at(),
                method_params(ts, old(self).at(), params_model(first@)) == method_params(
                    ts,
                    self.at(),
                    params_model(acc@),
                ),
            decreases left(ts, self.at()),
        {
            let ghost before = params_model(acc@);
            let ghost here = self.at();
            if self.check_eat(&TokenKind::RParen) {
                return Ok(acc);
            }
            let name = match self.expect_ident() {
                Err(e) => {
                    return Err(e);
                },
                Ok(v) => v,
            };
            match self.eat(TokenKind::Colon) {
                Err(e) => {
                    return Err(e);
                },
                Ok(_) => {},
            }
            let t = match self.parse_type(false) {
                Err(e) => {
                    return Err(e);
                },
                Ok(v) => v,
            };
            let item = Param { name, ty: t };
            let ghost im = item@;
            acc.push(item);
            assert(params_model(acc@) =~= before.push(im));
            if !self.check_eat(&TokenKind::Comma) {
                return match self.eat(TokenKind::RParen) {
                    Err(e) => Err(e),
                    Ok(_) => Ok(acc),
                };
            }
        }
    }

    /// A method.
    fn parse_method(&mut self) -> (r: Result<Method, ParseError>)
        requires
            old(self).wf(),
        ensures
            match method(old(self).ts(), old(self).at()) {
                Ok((t, q)) => r is Ok && r->Ok_0@ == t && moved(old(self), final(self))
                    && final(self).at() == q,
                Err(e) => r is Err && r->Err_0@ == e,
            },
    {
        match self.eat(TokenKind::Fn) {
            Err(e) => {
                return Err(e);
            },
            Ok(_) => {},
        }
        let name = match self.expect_ident() {
            Err(e) => {
                return Err(e);
            },
            Ok(v) => v,
        };
        match self.eat(TokenKind::LParen) {
            Err(e) => {
                return Err(e);
            },
            Ok(_) => {},
        }
        let none: Vec<Param> = Vec::new();
        assert(params_model(none@) =~= Seq::empty());
        let params = match self.parse_params(none) {
            Err(e) => {
                return Err(e);
            },
            Ok(v) => v,
        };
        match self.eat(TokenKind::Arrow) {
            Err(e) => {
                return Err(e);
            },
            Ok(_) => {},
        }
        let return_type = match self.parse_type(true) {
            Err(e) => {
                return Err(e);
            },
            Ok(v) => v,
        };
        match self.eat(TokenKind::Semicolon) {
            Err(e) => {
                return Err(e);
            },
            Ok(_) => {},
        }
        let m = Method { name, params, return_type };
        assert(m@.params =~= params_model(params@));
        Ok(m)
    }

    /// The include directives.
    fn parse_includes(&mut self) -> (r: Result<Vec<String>, ParseError>)
        requires
            old(self).wf(),
        ensures
            match directives(old(self).ts(), old(self).at(), Seq::empty()) {
                Ok((v, q)) => r is Ok && strings_model(r->Ok_0@) == v && final(self).wf()
                    && final(self).ts() == old(self).ts() && final(self).at() == q,
                Err(e) => r is Err && r->Err_0@ == e,
            },
    {
        let ghost ts = self.ts();
        let mut acc: Vec<String> = Vec::new();
        assert(strings_model(acc@) =~= Seq::empty());
        while matches!(self.peek(), TokenKind::Include)
            invariant
                self.wf(),
                self.ts() == ts,
                ts == old(self).ts(),
                directives(ts, old(self).at(), Seq::empty()) == directives(
                    ts,
                    self.at(),
                    strings_model(acc@),
                ),
            decreases left(ts, self.at()),
        {
            let ghost before = strings_model(acc@);
            self.advance();
            let path = match self.peek() {
                TokenKind::Str(s) => s.clone(),
                _ => {
                    return Err(self.expected("string literal after `include`"));
                },
            };
            self.advance();
            match self.eat(TokenKind::Semicolon) {
                Err(e) => {
                    return Err(e);
                },
                Ok(_) => {},
            }
            let ghost pm = path@;
            acc.push(path);
            assert(strings_model(acc@) =~= before.push(pm));
        }
        Ok(acc)
    }

    /// The declarations and methods of an interface, with the closing brace.
    fn parse_items(&mut self) -> (r: Result<(Vec<TypeDecl>, Vec<Method>), ParseError>)
        requires
            old(self).wf(),
        ensures
            match items(old(self).ts(), old(self).at(), Seq::empty(), Seq::empty()) {
                Ok(((types, methods), q)) => r is Ok && decls_model(r->Ok_0.0@) == types
                    && methods_model(r->Ok_0.1@) == methods && moved(old(self), final(self))
                    && final(self).at() == q,
                Err(e) => r is Err && r->Err_0@ == e,
            },
    {
        let ghost ts = self.ts();
        let mut types: Vec<TypeDecl> = Vec::new();
        let mut methods: Vec<Method> = Vec::new();
        assert(decls_model(types@) =~= Seq::empty());
        assert(methods_model(methods@) =~= Seq::empty());
        loop
            invariant
                self.wf(),
                self.ts() == ts,
                ts == old(self).ts(),
                old(self).at() <= self.at(),
                items(ts, old(self).at(), Seq::empty(), Seq::empty()) == items(
                    ts,
                    self.at(),
                    decls_model(types@),
                    methods_model(methods@),
                ),
            decreases left(ts, self.at()),
        {
            let ghost tm = decls_model(types@);
            let ghost mm = methods_model(methods@);
            if self.check_eat(&TokenKind::RBrace) {
                return Ok((types, methods));
            }
            match self.peek() {
                TokenKind::Eof => {
                    return Err(
                        self.err(String::from_str("unexpected end of file, missing `}`")),
                    );
                },
                TokenKind::Fn => match self.parse_method() {
                    Err(e) => {
                        return Err(e);
                    },
                    Ok(m) => {
                        let ghost item = m@;
                        methods.push(m);
                        assert(methods_model(methods@) =~= mm.push(item));
                    },
                },
                TokenKind::Struct | TokenKind::Enum | TokenKind::Opaque => {
                    match self.parse_type_decl() {
                        Err(e) => {
                            return Err(e);
                        },
                        Ok(d) => {
                            let ghost item = d@;
                            types.push(d);
                            assert(decls_model(types@) =~= tm.push(item));
                        },
                    }
                },
                _ => {
                    return Err(self.expected("type declaration or `fn`"));
                },
            }
        }
    }

    /// A type declaration, of which the first token is at hand.
    fn parse_type_decl(&mut self) -> (r: Result<TypeDecl, ParseError>)
        requires
            old(self).wf(),
            type_decl(old(self).ts(), old(self).at()) is Some,
        ensures
            match type_decl(old(self).ts(), old(self).at())->Some_0 {
                Ok((t, q)) => r is Ok && r->Ok_0@ == t && moved(old(self), final(self))
                    && final(self).at() == q,
                Err(e) => r is Err && r->Err_0@ == e,
            },
    {
        match self.peek() {
            TokenKind::Struct => self.parse_struct(),
            TokenKind::Enum => self.parse_enum(),
            _ => self.parse_opaque(),
        }
    }

    /// An interface.
    fn parse_interface(&mut self, includes: Vec<String>) -> (r: Result<Interface, ParseError>)
        requires
            old(self).wf(),
        ensures
            match interface(old(self).ts(), old(self).at(), strings_model(includes@)) {
                Ok((t, q)) => r is Ok && r->Ok_0@ == t && moved(old(self), final(self))
                    && final(self).at() == q,
                Err(e) => r is Err && r->Err_0@ == e,
            },
    {
        match self.eat(TokenKind::Interface) {
            Err(e) => {
                return Err(e);
            },
            Ok(_) => {},
        }
        let name = match self.expect_ident() {
            Err(e) => {
                return Err(e);
            },
            Ok(v) => v,
        };
        match self.eat(TokenKind::LBrace) {
            Err(e) => {
                return Err(e);
            },
            Ok(_) => {},
        }
        let (types, methods) = match self.parse_items() {
            Err(e) => {
                return Err(e);
            },
            Ok(v) => v,
        };
        if methods.len() == 0 {
            let name = name.as_str();
            return Err(self.err(String::from_str("interface `")
                .concat(name)
                .concat("` has no methods")));
        }
        let iface = Interface { name, includes, types, methods };
        assert(iface@.methods =~= methods_model(methods@));
        Ok(iface)
    }

    /// The declarations of a fragment.
    fn parse_fragment_decls(&mut self) -> (r: Result<Vec<TypeDecl>, ParseError>)
        requires
            old(self).wf(),
        ensures
            match fragment_decls(old(self).ts(), old(self).at(), Seq::empty()) {
                Ok(types) => r is Ok && decls_model(r->Ok_0@) == types,
                Err(e) => r is Err && r->Err_0@ == e,
            },
    {
        let ghost ts = self.ts();
        let mut types: Vec<TypeDecl> = Vec::new();
        assert(decls_model(types@) =~= Seq::empty());
        while !self.at_eof()
            invariant
                self.wf(),
                self.ts() == ts,
                ts == old(self).ts(),
                fragment_decls(ts, old(self).at(), Seq::empty()) == fragment_decls(
                    ts,
                    self.at(),
                    decls_model(types@),
                ),
            decreases left(ts, self.at()),
        {
            let ghost tm = decls_model(types@);
            match self.peek() {
                TokenKind::Fn => {
                    return Err(
                        self.err(
                            String::from_str(
                                "method declarations (`fn`) are not allowed in type fragments",
                            ),
                        ),
                    );
                },
                TokenKind::Struct | TokenKind::Enum | TokenKind::Opaque => {
                    match self.parse_type_decl() {
                        Err(e) => {
                            return Err(e);
                        },
                        Ok(d) => {
                            let ghost item = d@;
                            types.push(d);
                            assert(decls_model(types@) =~= tm.push(item));
                        },
                    }
                },
                _ => {
                    return Err(self.expected("type declaration in fragment"));
                },
            }
        }
        Ok(types)
    }
}

/// The models of a list of variants.
pub open spec fn variants_model(vs: Seq<EnumVariant>) -> Seq<VariantModel> {
    Seq::new(vs.len(), |i: int| vs[i]@)
}

/// The models of a list of parameters.
pub open spec fn params_model(ps: Seq<Param>) -> Seq<ParamModel> {
    Seq::new(ps.len(), |i: int| ps[i]@)
}

/// The models of a list of methods.
pub open spec fn methods_model(ms: Seq<Method>) -> Seq<MethodModel> {
    Seq::new(ms.len(), |i: int| ms[i]@)
}

// ---------------------------------------------------------------------------
// Entry points
// ---------------------------------------------------------------------------

fn lex(src: &str) -> (r: Result<Parser, ParseError>)
    ensures
        match tokens(src.spec_bytes()) {
            Ok(ts) => r is Ok && r->Ok_0.wf() && r->Ok_0.ts() == ts && r->Ok_0.at() == 0,
            Err(e) => r is Err && r->Err_0@ == e,
        },
{
    proof {
        tokens_end_with_eof(src.spec_bytes());
    }
    match Lexer::new(src).tokenize() {
        Err(e) => Err(ParseError { line: e.line, col: e.col, msg: e.msg }),
        Ok(tokens) => Ok(Parser::new(tokens)),
    }
}

/// Parses a `.dspi` source into an interface.
///
/// Named types are not looked up: call [`validate`] once included types have
/// been merged in.
pub fn parse(src: &str) -> (r: Result<Interface, ParseError>)
    ensures
        match parse_model(src.spec_bytes()) {
            Ok(iface) => r is Ok && r->Ok_0@ == iface,
            Err(e) => r is Err && r->Err_0@ == e,
        },
{
    let mut parser = match lex(src) {
        Err(e) => {
            return Err(e);
        },
        Ok(v) => v,
    };
    let includes = match parser.parse_includes() {
        Err(e) => {
            return Err(e);
        },
        Ok(v) => v,
    };
    let iface = match parser.parse_interface(includes) {
        Err(e) => {
            return Err(e);
        },
        Ok(v) => v,
    };
    if !parser.at_eof() {
        return Err(
            parser.err(String::from_str("trailing tokens after interface definition")),
        );
    }
    Ok(iface)
}

/// Parses a fragment, a file of type declarations without an interface, into
/// its declarations and its include directives. Methods are rejected.
pub fn parse_type_fragment(src: &str) -> (r: Result<(Vec<TypeDecl>, Vec<String>), ParseError>)
    ensures
        match fragment_model(src.spec_bytes()) {
            Ok((types, includes)) => r is Ok && decls_model(r->Ok_0.0@) == types && strings_model(
                r->Ok_0.1@,
            ) == includes,
            Err(e) => r is Err && r->Err_0@ == e,
        },
{
    let mut parser = match lex(src) {
        Err(e) => {
            return Err(e);
        },
        Ok(v) => v,
    };
    let includes = match parser.parse_includes() {
        Err(e) => {
            return Err(e);
        },
        Ok(v) => v,
    };
    match parser.parse_fragment_decls() {
        Err(e) => Err(e),
        Ok(types) => Ok((types, includes)),
    }
}

// ---------------------------------------------------------------------------
// Validation
// ---------------------------------------------------------------------------

/// The first name in `t`, from the left, that is not declared.
pub open spec fn undeclared(t: Ty, types: Seq<Decl>) -> Option<Seq<char>>
    decreases t, 0nat,
{
    match t {
        Ty::Named(name) => if lookup(types, name) is Some {
            None
        } else {
            Some(name)
        },
        Ty::Vec(inner) => undeclared(*inner, types),
        Ty::Option(inner) => undeclared(*inner, types),
        Ty::DSlice(inner) => undeclared(*inner, types),
        Ty::DVec(inner) => undeclared(*inner, types),
        Ty::DOption(inner) => undeclared(*inner, types),
        Ty::Ref(inner) => undeclared(*inner, types),
        Ty::RefMut(inner) => undeclared(*inner, types),
        Ty::Array(inner, _) => undeclared(*inner, types),
        Ty::Tuple(ts) => undeclared_in(ts, ts.len(), types),
        _ => None,
    }
}

/// The first name in the last `n` of `ts` that is not declared.
pub open spec fn undeclared_in(ts: Seq<Ty>, n: nat, types: Seq<Decl>) -> Option<Seq<char>>
    decreases ts, n,
{
    if n == 0 || n > ts.len() {
        None
    } else {
        match undeclared(ts[ts.len() - n], types) {
            Some(name) => Some(name),
            None => undeclared_in(ts, (n - 1) as nat, types),
        }
    }
}

/// The first undeclared name in the last `n` parameters.
pub open spec fn params_undeclared(ps: Seq<ParamModel>, n: nat, types: Seq<Decl>) -> Option<
    Seq<char>,
>
    decreases n,
{
    if n == 0 || n > ps.len() {
        None
    } else {
        match undeclared(ps[ps.len() - n].ty, types) {
            Some(name) => Some(name),
            None => params_undeclared(ps, (n - 1) as nat, types),
        }
    }
}

/// The first undeclared name in the last `n` methods: of each, the parameters
/// come before the return.
pub open spec fn methods_undeclared(ms: Seq<MethodModel>, n: nat, types: Seq<Decl>) -> Option<
    Seq<char>,
>
    decreases n,
{
    if n == 0 || n > ms.len() {
        None
    } else {
        let m = ms[ms.len() - n];
        match params_undeclared(m.params, m.params.len(), types) {
            Some(name) => Some(name),
            None => match undeclared(m.return_type, types) {
                Some(name) => Some(name),
                None => methods_undeclared(ms, (n - 1) as nat, types),
            },
        }
    }
}

/// The first undeclared name in the fields of the last `n` variants.
pub open spec fn variants_undeclared(vs: Seq<VariantModel>, n: nat, types: Seq<Decl>) -> Option<
    Seq<char>,
>
    decreases n,
{
    if n == 0 || n > vs.len() {
        None
    } else {
        let v = vs[vs.len() - n];
        match undeclared_in(v.fields, v.fields.len(), types) {
            Some(name) => Some(name),
            None => variants_undeclared(vs, (n - 1) as nat, types),
        }
    }
}

/// The first undeclared name in the fields of a declaration.
pub open spec fn decl_undeclared(d: Decl, types: Seq<Decl>) -> Option<Seq<char>> {
    match d {
        Decl::Struct(s) => undeclared_in(field_types(s.fields), s.fields.len(), types),
        Decl::Enum(e) => variants_undeclared(e.variants, e.variants.len(), types),
        Decl::Opaque(_) => None,
    }
}

/// The first undeclared name in the last `n` declarations.
pub open spec fn decls_undeclared(ds: Seq<Decl>, n: nat, types: Seq<Decl>) -> Option<Seq<char>>
    decreases n,
{
    if n == 0 || n > ds.len() {
        None
    } else {
        match decl_undeclared(ds[ds.len() - n], types) {
            Some(name) => Some(name),
            None => decls_undeclared(ds, (n - 1) as nat, types),
        }
    }
}

/// The first undeclared name that an interface mentions, in its methods, then
/// in its declarations.
pub open spec fn first_undeclared(iface: InterfaceModel) -> Option<Seq<char>> {
    match methods_undeclared(iface.methods, iface.methods.len(), iface.types) {
        Some(name) => Some(name),
        None => decls_undeclared(iface.types, iface.types.len(), iface.types),
    }
}

/// The error that a name is not declared.
pub open spec fn undeclared_error(name: Seq<char>) -> ErrorModel {
    ErrorModel { line: 0, col: 0, msg: "undeclared type reference: "@ + name }
}

/// Whether `name` stands somewhere in `t`.
pub open spec fn names(t: Ty, name: Seq<char>) -> bool
    decreases t, 0nat,
{
    match t {
        Ty::Named(n) => n == name,
        Ty::Vec(inner) => names(*inner, name),
        Ty::Option(inner) => names(*inner, name),
        Ty::DSlice(inner) => names(*inner, name),
        Ty::DVec(inner) => names(*inner, name),
        Ty::DOption(inner) => names(*inner, name),
        Ty::Ref(inner) => names(*inner, name),
        Ty::RefMut(inner) => names(*inner, name),
        Ty::Array(inner, _) => names(*inner, name),
        Ty::Tuple(ts) => names_in(ts, ts.len(), name),
        _ => false,
    }
}

/// Whether `name` stands somewhere in the last `n` of `ts`.
pub open spec fn names_in(ts: Seq<Ty>, n: nat, name: Seq<char>) -> bool
    decreases ts, n,
{
    0 < n <= ts.len() && (names(ts[ts.len() - n], name) || names_in(ts, (n - 1) as nat, name))
}

proof fn lemma_undeclared_names(t: Ty, types: Seq<Decl>, name: Seq<char>)
    ensures
        undeclared(t, types) matches Some(n) ==> names(t, n) && lookup(types, n) is None,
        undeclared(t, types) is None && names(t, name) ==> lookup(types, name) is Some,
    decreases t, 0nat,
{
    match t {
        Ty::Vec(inner) => lemma_undeclared_names(*inner, types, name),
        Ty::Option(inner) => lemma_undeclared_names(*inner, types, name),
        Ty::DSlice(inner) => lemma_undeclared_names(*inner, types, name),
        Ty::DVec(inner) => lemma_undeclared_names(*inner, types, name),
        Ty::DOption(inner) => lemma_undeclared_names(*inner, types, name),
        Ty::Ref(inner) => lemma_undeclared_names(*inner, types, name),
        Ty::RefMut(inner) => lemma_undeclared_names(*inner, types, name),
        Ty::Array(inner, _) => lemma_undeclared_names(*inner, types, name),
        Ty::Tuple(ts) => lemma_undeclared_names_in(ts, ts.len(), types, name),
        _ => {},
    }
}

proof fn lemma_undeclared_names_in(ts: Seq<Ty>, n: nat, types: Seq<Decl>, name: Seq<char>)
    ensures
        undeclared_in(ts, n, types) matches Some(u) ==> names_in(ts, n, u) && lookup(types, u)
            is None,
        undeclared_in(ts, n, types) is None && names_in(ts, n, name) ==> lookup(types, name)
            is Some,
    decreases ts, n,
{
    if 0 < n <= ts.len() {
        lemma_undeclared_names(ts[ts.len() - n], types, name);
        lemma_undeclared_names_in(ts, (n - 1) as nat, types, name);
    }
}

/// Whether a method mentions `name`.
pub open spec fn method_names(m: MethodModel, name: Seq<char>) -> bool {
    ||| names(m.return_type, name)
    ||| exists|i: int| 0 <= i < m.params.len() && names((#[trigger] m.params[i]).ty, name)
}

/// Whether a field of a declaration mentions `name`.
pub open spec fn decl_names(d: Decl, name: Seq<char>) -> bool {
    match d {
        Decl::Struct(s) => exists|i: int|
            0 <= i < s.fields.len() && names((#[trigger] s.fields[i]).1, name),
        Decl::Enum(e) => exists|i: int|
            0 <= i < e.variants.len() && fields_name((#[trigger] e.variants[i]).fields, name),
        Decl::Opaque(_) => false,
    }
}

/// Whether one of the types mentions `name`.
pub open spec fn fields_name(fs: Seq<Ty>, name: Seq<char>) -> bool {
    exists|i: int| 0 <= i < fs.len() && names(#[trigger] fs[i], name)
}

/// Whether an interface mentions `name` in a method or in a field.
pub open spec fn mentions(iface: InterfaceModel, name: Seq<char>) -> bool {
    ||| exists|i: int|
        0 <= i < iface.methods.len() && method_names(#[trigger] iface.methods[i], name)
    ||| exists|i: int| 0 <= i < iface.types.len() && decl_names(#[trigger] iface.types[i], name)
}

proof fn lemma_fields_undeclared(fs: Seq<Ty>, n: nat, types: Seq<Decl>)
    requires
        n <= fs.len(),
    ensures
        match undeclared_in(fs, n, types) {
            Some(u) => lookup(types, u) is None && exists|i: int|
                fs.len() - n <= i < fs.len() && names(#[trigger] fs[i], u),
            None => forall|i: int, name: Seq<char>|
                fs.len() - n <= i < fs.len() && #[trigger] names(fs[i], name) ==> lookup(
                    types,
                    name,
                ) is Some,
        },
    decreases n,
{
    if n > 0 {
        let t = fs[fs.len() - n];
        lemma_fields_undeclared(fs, (n - 1) as nat, types);
        assert forall|name: Seq<char>|
            undeclared(t, types) is None && #[trigger] names(t, name) implies lookup(types, name)
            is Some by {
            lemma_undeclared_names(t, types, name);
        }
        if let Some(u) = undeclared(t, types) {
            lemma_undeclared_names(t, types, u);
        }
    }
}

proof fn lemma_params_undeclared(ps: Seq<ParamModel>, n: nat, types: Seq<Decl>)
    requires
        n <= ps.len(),
    ensures
        match params_undeclared(ps, n, types) {
            Some(u) => lookup(types, u) is None && exists|i: int|
                ps.len() - n <= i < ps.len() && names((#[trigger] ps[i]).ty, u),
            None => forall|i: int, name: Seq<char>|
                ps.len() - n <= i < ps.len() && #[trigger] names(ps[i].ty, name) ==> lookup(
                    types,
                    name,
                ) is Some,
        },
    decreases n,
{
    if n > 0 {
        let t = ps[ps.len() - n].ty;
        lemma_params_undeclared(ps, (n - 1) as nat, types);
        assert forall|name: Seq<char>|
            undeclared(t, types) is None && #[trigger] names(t, name) implies lookup(types, name)
            is Some by {
            lemma_undeclared_names(t, types, name);
        }
        if let Some(u) = undeclared(t, types) {
            lemma_undeclared_names(t, types, u);
        }
    }
}

proof fn lemma_methods_undeclared(ms: Seq<MethodModel>, n: nat, types: Seq<Decl>)
    requires
        n <= ms.len(),
    ensures
        match methods_undeclared(ms, n, types) {
            Some(u) => lookup(types, u) is None && exists|i: int|
                ms.len() - n <= i < ms.len() && method_names(#[trigger] ms[i], u),
            None => forall|i: int, name: Seq<char>|
                ms.len() - n <= i < ms.len() && #[trigger] method_names(ms[i], name) ==> lookup(
                    types,
                    name,
                ) is Some,
        },
    decreases n,
{
    if n > 0 {
        let m = ms[ms.len() - n];
        let t = m.return_type;
        lemma_params_undeclared(m.params, m.params.len(), types);
        lemma_methods_undeclared(ms, (n - 1) as nat, types);
        assert forall|name: Seq<char>|
            undeclared(t, types) is None && #[trigger] names(t, name) implies lookup(types, name)
            is Some by {
            lemma_undeclared_names(t, types, name);
        }
        if let Some(u) = undeclared(t, types) {
            lemma_undeclared_names(t, types, u);
        }
        if let Some(u) = methods_undeclared(ms, n, types) {
            if params_undeclared(m.params, m.params.len(), types) is Some || undeclared(t, types)
                is Some {
                assert(method_names(ms[ms.len() - n], u));
            }
        }
    }
}

proof fn lemma_variants_undeclared(vs: Seq<VariantModel>, n: nat, types: Seq<Decl>)
    requires
        n <= vs.len(),
    ensures
        match variants_undeclared(vs, n, types) {
            Some(u) => lookup(types, u) is None && exists|i: int|
                vs.len() - n <= i < vs.len() && fields_name((#[trigger] vs[i]).fields, u),
            None => forall|i: int, name: Seq<char>|
                vs.len() - n <= i < vs.len() && #[trigger] fields_name(vs[i].fields, name)
                    ==> lookup(types, name) is Some,
        },
    decreases n,
{
    if n > 0 {
        let fs = vs[vs.len() - n].fields;
        lemma_fields_undeclared(fs, fs.len(), types);
        lemma_variants_undeclared(vs, (n - 1) as nat, types);
        if let Some(u) = variants_undeclared(vs, n, types) {
            if undeclared_in(fs, fs.len(), types) is Some {
                assert(fields_name(vs[vs.len() - n].fields, u));
            }
        }
    }
}

proof fn lemma_decl_undeclared(d: Decl, types: Seq<Decl>)
    ensures
        match decl_undeclared(d, types) {
            Some(u) => lookup(types, u) is None && decl_names(d, u),
            None => forall|name: Seq<char>| #[trigger]
                decl_names(d, name) ==> lookup(types, name) is Some,
        },
{
    match d {
        Decl::Struct(s) => {
            let fs = field_types(s.fields);
            lemma_fields_undeclared(fs, fs.len(), types);
            if let Some(u) = decl_undeclared(d, types) {
                let i = choose|i: int| 0 <= i < fs.len() && names(#[trigger] fs[i], u);
                assert(names(s.fields[i].1, u));
            } else {
                assert forall|name: Seq<char>| #[trigger] decl_names(d, name) implies lookup(
                    types,
                    name,
                ) is Some by {
                    let i = choose|i: int|
                        0 <= i < s.fields.len() && names((#[trigger] s.fields[i]).1, name);
                    assert(names(fs[i], name));
                }
            }
        },
        Decl::Enum(e) => {
            lemma_variants_undeclared(e.variants, e.variants.len(), types);
        },
        Decl::Opaque(_) => {},
    }
}

proof fn lemma_decls_undeclared(ds: Seq<Decl>, n: nat, types: Seq<Decl>)
    requires
        n <= ds.len(),
    ensures
        match decls_undeclared(ds, n, types) {
            Some(u) => lookup(types, u) is None && exists|i: int|
                ds.len() - n <= i < ds.len() && decl_names(#[trigger] ds[i], u),
            None => forall|i: int, name: Seq<char>|
                ds.len() - n <= i < ds.len() && #[trigger] decl_names(ds[i], name) ==> lookup(
                    types,
                    name,
                ) is Some,
        },
    decreases n,
{
    if n > 0 {
        lemma_decl_undeclared(ds[ds.len() - n], types);
        lemma_decls_undeclared(ds, (n - 1) as nat, types);
    }
}

/// An interface validates exactly if every name that it mentions, at any depth
/// of any type, is declared; and the name that an error tells is mentioned and
/// not declared.
pub proof fn validation_finds_undeclared(iface: InterfaceModel)
    ensures
        first_undeclared(iface) is None <==> forall|name: Seq<char>| #[trigger]
            mentions(iface, name) ==> lookup(iface.types, name) is Some,
        first_undeclared(iface) matches Some(u) ==> mentions(iface, u) && lookup(iface.types, u)
            is None,
{
    lemma_methods_undeclared(iface.methods, iface.methods.len(), iface.types);
    lemma_decls_undeclared(iface.types, iface.types.len(), iface.types);
    assert forall|name: Seq<char>|
        first_undeclared(iface) is None && #[trigger] mentions(iface, name) implies lookup(
        iface.types,
        name,
    ) is Some by {
        if exists|i: int|
            0 <= i < iface.methods.len() && method_names(#[trigger] iface.methods[i], name) {
            let i = choose|i: int|
                0 <= i < iface.methods.len() && method_names(#[trigger] iface.methods[i], name);
            assert(method_names(iface.methods[i], name));
        } else {
            let i = choose|i: int|
                0 <= i < iface.types.len() && decl_names(#[trigger] iface.types[i], name);
            assert(decl_names(iface.types[i], name));
        }
    }
    if let Some(u) = first_undeclared(iface) {
        assert(mentions(iface, u));
    }
}

/// Looks up every name in a type.
fn check_named_types(t: &FieldType, types: &[TypeDecl]) -> (r: Result<(), ParseError>)
    ensures
        match undeclared(t@, decls_model(types@)) {
            None => r is Ok,
            Some(name) => r is Err && r->Err_0@ == undeclared_error(name),
        },
    decreases t,
{
    match t {
        FieldType::Named(name) => {
            let name = name.as_str();
            match find_type(types, name) {
                Some(_) => Ok(()),
                None => Err(ParseError { line: 0, col: 0, msg: String::from_str("undeclared type reference: ")
                    .concat(name) }),
            }
        },
        FieldType::Vec(inner)
        | FieldType::Option(inner)
        | FieldType::DSlice(inner)
        | FieldType::DVec(inner)
        | FieldType::DOption(inner)
        | FieldType::Ref(inner)
        | FieldType::RefMut(inner)
        | FieldType::Array(inner, _) => check_named_types(inner, types),
        FieldType::Tuple(ts) => {
            let ghost m = decls_model(types@);
            let ghost tm = types_model(ts@);
            assert(t@->Tuple_0 =~= tm);
            let mut i: usize = 0;
            while i < ts.len()
                invariant
                    i <= ts.len(),
                    m == decls_model(types@),
                    tm == types_model(ts@),
                    undeclared(t@, m) == undeclared_in(tm, (tm.len() - i) as nat, m),
                    decreases_to!(t => ts@),
                decreases ts.len() - i,
            {
                match check_named_types(&ts[i], types) {
                    Err(e) => {
                        return Err(e);
                    },
                    Ok(_) => {},
                }
                i = i + 1;
            }
            Ok(())
        },
        _ => Ok(()),
    }
}

/// Looks up every name in a list of types.
fn check_all(ts: &Vec<FieldType>, types: &[TypeDecl]) -> (r: Result<(), ParseError>)
    ensures
        match undeclared_in(types_model(ts@), ts@.len(), decls_model(types@)) {
            None => r is Ok,
            Some(name) => r is Err && r->Err_0@ == undeclared_error(name),
        },
{
    let ghost m = decls_model(types@);
    let ghost tm = types_model(ts@);
    let mut i: usize = 0;
    while i < ts.len()
        invariant
            i <= ts.len(),
            m == decls_model(types@),
            tm == types_model(ts@),
            undeclared_in(tm, tm.len(), m) == undeclared_in(tm, (tm.len() - i) as nat, m),
        decreases ts.len() - i,
    {
        match check_named_types(&ts[i], types) {
            Err(e) => {
                return Err(e);
            },
            Ok(_) => {},
        }
        i = i + 1;
    }
    Ok(())
}

fn check_method(m: &Method, types: &[TypeDecl]) -> (r: Result<(), ParseError>)
    ensures
        match params_undeclared(m@.params, m@.params.len(), decls_model(types@)) {
            Some(name) => r is Err && r->Err_0@ == undeclared_error(name),
            None => match undeclared(m@.return_type, decls_model(types@)) {
                None => r is Ok,
                Some(name) => r is Err && r->Err_0@ == undeclared_error(name),
            },
        },
{
    let ghost tm = decls_model(types@);
    let ghost ps = m@.params;
    let mut i: usize = 0;
    while i < m.params.len()
        invariant
            i <= m.params.len(),
            tm == decls_model(types@),
            ps == m@.params,
            params_undeclared(ps, ps.len(), tm) == params_undeclared(ps, (ps.len() - i) as nat, tm),
        decreases m.params.len() - i,
    {
        assert(ps[i as int] == m.params@[i as int]@);
        match check_named_types(&m.params[i].ty, types) {
            Err(e) => {
                return Err(e);
            },
            Ok(_) => {},
        }
        i = i + 1;
    }
    check_named_types(&m.return_type, types)
}

fn check_decl(d: &TypeDecl, types: &[TypeDecl]) -> (r: Result<(), ParseError>)
    ensures
        match decl_undeclared(d@, decls_model(types@)) {
            None => r is Ok,
            Some(name) => r is Err && r->Err_0@ == undeclared_error(name),
        },
{
    let ghost tm = decls_model(types@);
    match d {
        TypeDecl::Struct(s) => {
            let ghost fs = field_types(s@.fields);
            let mut i: usize = 0;
            while i < s.fields.len()
                invariant
                    i <= s.fields.len(),
                    tm == decls_model(types@),
                    fs == field_types(s@.fields),
                    d@ == Decl::Struct(s@),
                    undeclared_in(fs, fs.len(), tm) == undeclared_in(
                        fs,
                        (fs.len() - i) as nat,
                        tm,
                    ),
                decreases s.fields.len() - i,
            {
                assert(fs[i as int] == s.fields@[i as int].1@);
                match check_named_types(&s.fields[i].1, types) {
                    Err(e) => {
                        return Err(e);
                    },
                    Ok(_) => {},
                }
                i = i + 1;
            }
            Ok(())
        },
        TypeDecl::Enum(e) => {
            let ghost vs = e@.variants;
            let mut i: usize = 0;
            while i < e.variants.len()
                invariant
                    i <= e.variants.len(),
                    tm == decls_model(types@),
                    vs == e@.variants,
                    d@ == Decl::Enum(e@),
                    variants_undeclared(vs, vs.len(), tm) == variants_undeclared(
                        vs,
                        (vs.len() - i) as nat,
                        tm,
                    ),
                decreases e.variants.len() - i,
            {
                assert(vs[i as int] == e.variants@[i as int]@);
                match check_all(&e.variants[i].fields, types) {
                    Err(e) => {
                        return Err(e);
                    },
                    Ok(_) => {},
                }
                i = i + 1;
            }
            Ok(())
        },
        TypeDecl::Opaque(_) => Ok(()),
    }
}

/// Checks that every type that the interface mentions is declared.
pub fn validate(iface: &Interface) -> (r: Result<(), ParseError>)
    ensures
        match first_undeclared(iface@) {
            None => r is Ok,
            Some(name) => r is Err && r->Err_0@ == undeclared_error(name),
        },
{
    let ghost ms = iface@.methods;
    let ghost ds = iface@.types;
    let types = iface.types.as_slice();
    let mut i: usize = 0;
    while i < iface.methods.len()
        invariant
            i <= iface.methods.len(),
            decls_model(types@) == ds,
            ms == iface@.methods,
            ds == iface@.types,
            methods_undeclared(ms, ms.len(), ds) == methods_undeclared(
                ms,
                (ms.len() - i) as nat,
                ds,
            ),
        decreases iface.methods.len() - i,
    {
        assert(ms[i as int] == iface.methods@[i as int]@);
        match check_method(&iface.methods[i], types) {
            Err(e) => {
                return Err(e);
            },
            Ok(_) => {},
        }
        i = i + 1;
    }
    let mut j: usize = 0;
    while j < iface.types.len()
        invariant
            j <= iface.types.len(),
            decls_model(types@) == ds,
            ms == iface@.methods,
            ds == iface@.types,
            methods_undeclared(ms, ms.len(), ds) is None,
            decls_undeclared(ds, ds.len(), ds) == decls_undeclared(ds, (ds.len() - j) as nat, ds),
        decreases iface.types.len() - j,
    {
        assert(ds[j as int] == iface.types@[j as int]@);
        match check_decl(&iface.types[j], types) {
            Err(e) => {
                return Err(e);
            },
            Ok(_) => {},
        }
        j = j + 1;
    }
    Ok(())
}

} // verus!
