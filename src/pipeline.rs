use crate::ast::block_view;
use crate::ir_builder::convert;
use crate::ir_spec::{convert_spec, IrError};
use crate::llvm::strings_view;
use crate::lexer::lex_spec;
use crate::parser::{program_res, Parser, ParserError};
use crate::parser_spec::parse_program_spec;
use crate::typer::{tstmts_res, Typer, TypingError};
use crate::typer_spec::type_program_spec;
use vstd::prelude::*;

verus! {

/// Why compiling a program failed, by stage.
#[derive(Debug)]
pub enum CompileError {
    Parse(ParserError),
    Typing(TypingError),
    Lowering(IrError),
}

/// The IR lines a text compiles to, if it parses, types and lowers.
pub open spec fn compiled_lines(text: Seq<char>) -> Option<Seq<Seq<char>>> {
    match parse_program_spec(lex_spec(text), 0, seq![]) {
        Ok(ast) => match type_program_spec(ast) {
            Ok(typed) => match convert_spec(typed) {
                Ok(lines) => Some(lines),
                Err(_) => None,
            },
            Err(_) => None,
        },
        Err(_) => None,
    }
}

/// Compiles source text to IR lines: parse, type, lower, flatten.
pub fn ir_text(text: &str) -> (r: Result<Vec<String>, CompileError>)
    requires
        text@.len() <= isize::MAX,
    ensures
        (r matches Err(CompileError::Parse(e))) <==> parse_program_spec(lex_spec(text@), 0, seq![]) is Err,
        r matches Err(CompileError::Parse(e)) ==> parse_program_spec(lex_spec(text@), 0, seq![])
            == Err::<Seq<crate::ast::StmtV>, crate::parser_spec::PErr>(e@),
        parse_program_spec(lex_spec(text@), 0, seq![]) matches Ok(ast) ==> ((r matches Err(
            CompileError::Typing(e),
        )) <==> type_program_spec(ast) is Err),
        parse_program_spec(lex_spec(text@), 0, seq![]) matches Ok(ast) ==> (r matches Err(
            CompileError::Typing(e),
        ) ==> type_program_spec(ast) == Err::<Seq<crate::typed_ast::TStmtV>, crate::typer_spec::TErrV>(e@)),
        parse_program_spec(lex_spec(text@), 0, seq![]) matches Ok(ast) ==> (type_program_spec(ast) matches Ok(typed) ==> match convert_spec(typed) {
            Ok(lines) => r matches Ok(v) && strings_view(v@) == lines,
            Err(err) => r matches Err(CompileError::Lowering(e)) && e == err,
        }),
        r matches Err(CompileError::Parse(e)) ==> e.noted(),
        (r matches Ok(v)) <==> compiled_lines(text@) is Some,
        r matches Ok(v) ==> compiled_lines(text@) == Some(strings_view(v@)),
{
    let parser = Parser::new(text);
    let parsed = match parser.parse() {
        Ok(v) => v,
        Err(e) => return Err(CompileError::Parse(e)),
    };
    let typed = match Typer::type_ast(parsed) {
        Ok(v) => v,
        Err(e) => return Err(CompileError::Typing(e)),
    };
    match convert(&typed) {
        Ok(lines) => Ok(lines),
        Err(e) => Err(CompileError::Lowering(e)),
    }
}

} // verus!
