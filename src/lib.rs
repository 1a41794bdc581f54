//! A compiler for a small statically typed language that emits textual LLVM IR.
//!
//! The pipeline runs text through the lexer, the parser, the typer and the IR
//! builder; each stage is specified over a mathematical view of its data.
pub mod token;
pub mod lexer;
pub mod ast;
pub mod typed_ast;
pub mod token_holder;
pub mod parser_spec;
pub mod parser;
pub mod s_expr;
pub mod typer_spec;
pub mod typer;
pub mod llvm;
pub mod ir_spec;
pub mod ir_builder;
pub mod pipeline;
pub mod laws;
