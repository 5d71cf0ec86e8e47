//! A small C compiler: lexer, parser, type checker, the Poise
//! three-address IR, x86-64 code generation, stack-slot assignment and
//! assembly emission, each stated against a mathematical model.

use vstd::prelude::*;

pub mod text;

pub mod namemap;

pub mod types;

pub mod lexer;

pub mod parser;

pub mod semanal;

pub mod codegen;

pub mod emit;

pub mod poise;
