use langc::ast::{Block, Expression, Statement};
use langc::parser::Parser;
use langc::parser_spec::ParserErrorKind;
use langc::s_expr::{SExpr, ToSExpr};
use langc::token::{Token, TokenKind};

fn to_s_expr(statements: Vec<Statement>) -> Vec<SExpr> {
    statements.iter().map(|x| x.to_s_expr()).collect()
}

fn pretty(text: &str) -> Vec<SExpr> {
    to_s_expr(Parser::new(text).parse().unwrap())
}

#[test]
fn one() {
    let text = "1;";
    let ast = Parser::new(text).parse().unwrap();
    assert_eq!(to_s_expr(ast), vec![SExpr::parse("1")])
}

#[test]
fn one_element_list() {
    let text = "[1];";
    let ast = Parser::new(text).parse().unwrap();
    assert_eq!(to_s_expr(ast), vec![SExpr::parse("(list 1)")])
}

#[test]
fn two_element_list() {
    let text = "[1, 2];";
    let ast = Parser::new(text).parse().unwrap();
    assert_eq!(to_s_expr(ast), vec![SExpr::parse("(list 1 2)")])
}

#[test]
fn two_element_list_trailing_comma() {
    let text = "[1, 2, ];";
    let ast = Parser::new(text).parse().unwrap();
    assert_eq!(to_s_expr(ast), vec![SExpr::parse("(list 1 2)")])
}

#[test]
fn expr_list() {
    let text = "[1, 2, 3 + 4];";
    let ast = Parser::new(text).parse().unwrap();
    assert_eq!(to_s_expr(ast), vec![SExpr::parse("(list 1 2 (+ 3 4))")])
}

#[test]
fn expr_list_after() {
    let text = "[1, 2, 3 + 4] + 5;";
    let ast = Parser::new(text).parse().unwrap();
    assert_eq!(to_s_expr(ast), vec![SExpr::parse("(+ (list 1 2 (+ 3 4)) 5)")])
}

#[test]
fn neg_one() {
    let text = "-1;";
    let ast = Parser::new(text).parse().unwrap();
    assert_eq!(to_s_expr(ast), vec![SExpr::parse("(- 1)")])
}

#[test]
fn plus_neg() {
    let text = "20 + -1;";
    let ast = Parser::new(text).parse().unwrap();
    assert_eq!(to_s_expr(ast), vec![SExpr::parse("(+ 20 (- 1))")])
}

#[test]
fn equals() {
    let text = "20 == 4;";
    let ast = Parser::new(text).parse().unwrap();
    assert_eq!(to_s_expr(ast), vec![SExpr::parse("(== 20 4)")])
}

#[test]
fn mod_simple_math() {
    let text = "1 + 2;";
    let ast = Parser::new(text).parse().unwrap();
    assert_eq!(to_s_expr(ast), vec![SExpr::parse("(+ 1 2)")])
}

#[test]
fn ordered_math() {
    let text = "1 + 2 + 3;";
    let ast = Parser::new(text).parse().unwrap();
    assert_eq!(to_s_expr(ast), vec![SExpr::parse("(+ (+ 1 2) 3)")])
}

#[test]
fn ordered_math_long() {
    let text = "1 + 2 + 3 + 4;";
    let ast = Parser::new(text).parse().unwrap();
    assert_eq!(to_s_expr(ast), vec![SExpr::parse("(+ (+ (+ 1 2) 3) 4)")])
}

#[test]
fn mod_var_decl() {
    let text = "let x: int = 4;";
    let ast = Parser::new(text).parse().unwrap();
    assert_eq!(to_s_expr(ast), vec![SExpr::parse("(variable_declaration x:int 4)")])
}

#[test]
fn var_assign() {
    let text = "x = 4;";
    let ast = Parser::new(text).parse().unwrap();
    assert_eq!(to_s_expr(ast), vec![SExpr::parse("(= x 4)")])
}

#[test]
fn while_2() {
    let text = "while x > 2 { 2; }";
    let ast = Parser::new(text).parse().unwrap();
    assert_eq!(to_s_expr(ast), vec![SExpr::parse("(while (> x 2) (2))")])
}

#[test]
fn nested_while_2() {
    let text = "while x > 2 { while y > 2 { 2 } }";
    let ast = Parser::new(text).parse().unwrap();
    assert_eq!(to_s_expr(ast), vec![SExpr::parse("(while (> x 2) (while (> y 2) (2)))")])
}

#[test]
fn while_2_semicolon_elided() {
    let text = "while x > 2 { 2 }";
    let ast = Parser::new(text).parse().unwrap();
    assert_eq!(to_s_expr(ast), vec![SExpr::parse("(while (> x 2) (2))")])
}

#[test]
fn return_2() {
    let text = "return 2;";
    let ast = Parser::new(text).parse().unwrap();
    assert_eq!(to_s_expr(ast), vec![SExpr::parse("(return 2)")])
}

#[test]
fn elided_semicolon_if() {
    let text = "if x { y; }";
    let ast = Parser::new(text).parse().unwrap();
    assert_eq!(to_s_expr(ast), vec![SExpr::parse("(if x (y))")])
}

#[test]
fn double_elided_semicolon() {
    let text = "if x { y }";
    let ast = Parser::new(text).parse().unwrap();
    assert_eq!(to_s_expr(ast), vec![SExpr::parse("(if x (y))")])
}

#[test]
fn nested_if() {
    let text = "if x { if y { z } }";
    let ast = Parser::new(text).parse().unwrap();
    assert_eq!(to_s_expr(ast), vec![SExpr::parse("(if x (if y (z)))")])
}

#[test]
fn paren_expr() {
    let text = "(1 + 2 + 3) + (1 + 2);";
    let ast = Parser::new(text).parse().unwrap();
    assert_eq!(to_s_expr(ast), vec![SExpr::parse("(+ (+ (+ 1 2) 3) (+ 1 2))")])
}

#[test]
fn mod_func_call() {
    let text = "cat();";
    let ast = Parser::new(text).parse().unwrap();
    assert_eq!(to_s_expr(ast), vec![SExpr::parse("(cat)")])
}

#[test]
fn mod_func_def_1() {
    let text = "fn func(a:int, b:bool) -> int {}";
    let ast = Parser::new(text).parse().unwrap();
    assert_eq!(to_s_expr(ast), vec![SExpr::parse("(function_define func a:int b:bool (empty_block) ->int)")])
}

#[test]
fn func_def_2() {
    let text = "fn func(a:int, b:bool) -> int { return a + b; }";
    let ast = Parser::new(text).parse().unwrap();
    assert_eq!(to_s_expr(ast), vec![SExpr::parse("(function_define func a:int b:bool (return (+ a b)) ->int)")])
}

#[test]
fn block_if() {
    let if_internals = Expression::If {
        condition: Box::new(Expression::Name(Token::un_located(TokenKind::Name, "y"))),
        true_block: vec![Statement::Expression(Expression::Name(Token::un_located(TokenKind::Name, "z")))],
        else_block: None,
    };
    let b: Block = vec![Statement::Expression(if_internals)];
    let s_expr = b.to_s_expr();
    assert_eq!(s_expr, SExpr::parse("(if y (z))"))
}

#[test]
fn optional_semicolon_after_while_and_if_gives_same_ast() {
    assert_eq!(pretty("while x > 2 { 2 };"), pretty("while x > 2 { 2 }"));
    assert_eq!(pretty("if x { y };"), pretty("if x { y }"));
}

#[test]
fn else_if_nests_in_a_singleton_block() {
    assert_eq!(pretty("if a { 1 } else if b { 2 } else { 3 }"), vec![SExpr::parse("(if a (1) (if b (2) (3)))")]);
}

#[test]
fn logical_operators_share_one_level_left_to_right() {
    assert_eq!(pretty("a || b && c;"), vec![SExpr::parse("(&& (|| a b) c)")]);
    assert_eq!(pretty("!a == b;"), vec![SExpr::parse("(! (== a b))")]);
}

#[test]
fn several_top_level_statements() {
    assert_eq!(pretty("fn f() -> int { return 1; } fn main() -> int { return f(); }"), vec![
        SExpr::parse("(function_define f (return 1) ->int)"),
        SExpr::parse("(function_define main (return (f)) ->int)"),
    ]);
}

#[test]
fn list_type_in_declaration() {
    assert_eq!(pretty("let x: list int = [1];"), vec![SExpr::parse("(variable_declaration x:list<int> (list 1))")]);
}

#[test]
fn missing_semicolon_is_an_unexpected_token() {
    let err = Parser::new("1 2").parse().unwrap_err();
    assert_eq!(err.kind(), ParserErrorKind::UnexpectedToken);
    assert_eq!(err.offending_token().lexeme(), "2");
}

#[test]
fn declaration_needs_a_name() {
    let err = Parser::new("let 4: int = 4;").parse().unwrap_err();
    assert_eq!(err.kind(), ParserErrorKind::InvalidName);
    assert_eq!(err.offending_token().lexeme(), "4");
}

#[test]
fn function_needs_a_name() {
    let err = Parser::new("fn (a: int) -> int {}").parse().unwrap_err();
    assert_eq!(err.kind(), ParserErrorKind::InvalidName);
    assert_eq!(err.offending_token().kind(), TokenKind::LParen);
}

#[test]
fn bad_type_is_reported() {
    let err = Parser::new("let x: 5 = 4;").parse().unwrap_err();
    assert_eq!(err.kind(), ParserErrorKind::UnexpectedToken);
    assert_eq!(err.offending_token().lexeme(), "5");
}
