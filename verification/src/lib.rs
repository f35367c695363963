//! DynSpire: interface definitions, code generation and the slot runtime.
use vstd::prelude::*;

pub mod arguments;
pub mod ast;
pub mod calls;
pub mod canonical;
pub mod codec;
pub mod counting;
pub mod dispatch;
pub mod exchange;
pub mod expand;
pub mod ffi;
pub mod fragments;
pub mod gen;
pub mod grammar;
pub mod hashing;
pub mod includes;
pub mod kvmap;
pub mod lexer;
pub mod managed;
pub mod marshal;
pub mod parser;
pub mod py_runtime;
pub mod pygen;
pub mod pylines;
pub mod pyread;
pub mod reflect;
pub mod rle;
pub mod rustmodel;
pub mod rusttext;
pub mod rustwire;
pub mod slotgen;
pub mod slots;
pub mod spelling;
pub mod text;
pub mod tower;
pub mod typetable;
pub mod words;

verus! {

} // verus!
