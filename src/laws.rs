use crate::ast::StmtV;
use crate::lexer::lex_spec;
use crate::parser_spec::parse_program_spec;
use crate::pipeline::compiled_lines;
use crate::s_expr::{stmt_sexpr, SExprV};
use crate::typer_spec::type_program_spec;
use vstd::prelude::*;

verus! {

/// The printed forms of a program's top-level statements.
pub open spec fn printed_program(text: Seq<char>) -> Result<Seq<SExprV>, ()> {
    match parse_program_spec(lex_spec(text), 0, seq![]) {
        Ok(stmts) => Ok(stmts.map_values(|s: StmtV| stmt_sexpr(s))),
        Err(_) => Err(()),
    }
}

/// Pretty-printing what the parser builds depends on the source text alone:
/// texts with the same characters lex, parse and print identically.
pub proof fn lemma_printing_is_determined_by_text(a: Seq<char>, b: Seq<char>)
    requires
        a == b,
    ensures
        lex_spec(a) == lex_spec(b),
        parse_program_spec(lex_spec(a), 0, seq![]) == parse_program_spec(lex_spec(b), 0, seq![]),
        printed_program(a) == printed_program(b),
{
}

/// Compiling is repeatable: the IR that a text compiles to (or its failure) is
/// fixed by the text, so compiling the same text twice gives identical lines.
pub proof fn lemma_compiling_is_deterministic(a: Seq<char>, b: Seq<char>)
    requires
        a == b,
    ensures
        compiled_lines(a) == compiled_lines(b),
        parse_program_spec(lex_spec(a), 0, seq![]) matches Ok(ast) ==> type_program_spec(ast)
            == type_program_spec(parse_program_spec(lex_spec(b), 0, seq![])->Ok_0),
{
}

} // verus!
