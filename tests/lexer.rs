use langc::lexer::Lexer;
use langc::token::{Location, Token, TokenKind};
use langc::token::TokenKind::{
    AndAnd, Arrow, BoolType, Colon, Comma, Equals, Fn, Int, IntType, LCurlyBrace, LParen, Let,
    Minus, Name, PipePipe, Plus, RCurlyBrace, RParen, Return, Semicolon, EOI,
};

#[test]
fn number() {
    let text = "1234";
    let tokens = Lexer::new(text).lex();
    assert!(tokens[0].content_equal(&Token::un_located(Int, text)))
}

#[test]
fn name() {
    let text = "cat";
    let tokens = Lexer::new(text).lex();
    assert!(tokens[0].content_equal(&Token::un_located(Name, text)))
}

#[test]
fn name_and_number() {
    let text = "cat 123";
    let tokens = Lexer::new(text).lex();
    assert!(
        tokens[0].content_equal(&Token::un_located(Name, "cat"))
            && tokens[1].content_equal(&Token::un_located(Int, "123"))
    )
}

#[test]
fn number_and_name() {
    let text = "123 cat";
    let tokens = Lexer::new(text).lex();
    assert!(
        tokens[0].content_equal(&Token::un_located(Int, "123"))
            && tokens[1].content_equal(&Token::un_located(Name, "cat"))
    )
}

#[test]
fn lexer_simple_math() {
    let text = "123 + 456 - sam";
    let tokens = Lexer::new(text).lex();
    assert!(tokens[0].content_equal(&Token::un_located(Int, "123")));
    assert!(tokens[1].content_equal(&Token::un_located(Plus, "+")));
    assert!(tokens[2].content_equal(&Token::un_located(Int, "456")));
    assert!(tokens[3].content_equal(&Token::un_located(Minus, "-")));
    assert!(tokens[4].content_equal(&Token::un_located(Name, "sam")));
}

#[test]
fn new_line() {
    let text = "fn\nfn";
    let tokens = Lexer::new(text).lex();
    assert_eq!(
        tokens,
        vec![
            Token::new(TokenKind::Fn, Location::new(1, 1), "fn"),
            Token::new(TokenKind::Fn, Location::new(2, 1), "fn"),
            Token::new(EOI, Location::new(2, 4), "")
        ]
    )
}

#[test]
fn x_colon() {
    let text = "x:";
    let tokens = Lexer::new(text).lex();
    assert_eq!(tokens.len(), 3);
    assert!(tokens[0].content_equal(&Token::un_located(Name, "x")));
    assert!(tokens[1].content_equal(&Token::un_located(Colon, ":")));
    assert!(tokens[2].content_equal(&Token::un_located(EOI, "")))
}

#[test]
fn one_colon() {
    let text = "1:";
    let tokens = Lexer::new(text).lex();
    assert_eq!(tokens.len(), 3);
    assert!(tokens[0].content_equal(&Token::un_located(Int, "1")));
    assert!(tokens[1].content_equal(&Token::un_located(Colon, ":")));
    assert!(tokens[2].content_equal(&Token::un_located(EOI, "")))
}

#[test]
fn lexer_var_decl() {
    let text = "let x: int = 4;";
    let tokens = Lexer::new(text).lex();
    assert_eq!(tokens.len(), 8);
    assert!(tokens[0].content_equal(&Token::un_located(Let, "let")));
    assert!(tokens[1].content_equal(&Token::un_located(Name, "x")));
    assert!(tokens[2].content_equal(&Token::un_located(Colon, ":")));
    assert!(tokens[3].content_equal(&Token::un_located(IntType, "int")));
    assert!(tokens[4].content_equal(&Token::un_located(Equals, "=")));
    assert!(tokens[5].content_equal(&Token::un_located(Int, "4")));
    assert!(tokens[6].content_equal(&Token::un_located(Semicolon, ";")));
    assert!(tokens[7].content_equal(&Token::un_located(EOI, "")));
}

#[test]
fn lexer_func_call() {
    let text = "cat();";
    let tokens = Lexer::new(text).lex();
    assert_eq!(tokens.len(), 5);
    assert!(tokens[0].content_equal(&Token::un_located(Name, "cat")));
    assert!(tokens[1].content_equal(&Token::un_located(LParen, "(")));
    assert!(tokens[2].content_equal(&Token::un_located(RParen, ")")));
    assert!(tokens[3].content_equal(&Token::un_located(Semicolon, ";")));
    assert!(tokens[4].content_equal(&Token::un_located(EOI, "")));
}

#[test]
fn int_call() {
    let text = "123();";
    let tokens = Lexer::new(text).lex();
    assert_eq!(tokens.len(), 5);
    assert!(tokens[0].content_equal(&Token::un_located(Int, "123")));
    assert!(tokens[1].content_equal(&Token::un_located(LParen, "(")));
    assert!(tokens[2].content_equal(&Token::un_located(RParen, ")")));
    assert!(tokens[3].content_equal(&Token::un_located(Semicolon, ";")));
    assert!(tokens[4].content_equal(&Token::un_located(EOI, "")));
}

#[test]
fn lexer_func_def_1() {
    let text = "fn func(a:int, b:bool) -> int {}";
    let tokens = Lexer::new(text).lex();
    assert_eq!(tokens.len(), 16);
    assert!(tokens[0].content_equal(&Token::un_located(Fn, "fn")));
    assert!(tokens[1].content_equal(&Token::un_located(Name, "func")));
    assert!(tokens[2].content_equal(&Token::un_located(LParen, "(")));
    assert!(tokens[3].content_equal(&Token::un_located(Name, "a")));
    assert!(tokens[4].content_equal(&Token::un_located(Colon, ":")));
    assert!(tokens[5].content_equal(&Token::un_located(IntType, "int")));
    assert!(tokens[6].content_equal(&Token::un_located(Comma, ",")));
    assert!(tokens[7].content_equal(&Token::un_located(Name, "b")));
    assert!(tokens[8].content_equal(&Token::un_located(Colon, ":")));
    assert!(tokens[9].content_equal(&Token::un_located(BoolType, "bool")));
    assert!(tokens[10].content_equal(&Token::un_located(RParen, ")")));
    assert!(tokens[11].content_equal(&Token::un_located(Arrow, "->")));
    assert!(tokens[12].content_equal(&Token::un_located(IntType, "int")));
    assert!(tokens[13].content_equal(&Token::un_located(LCurlyBrace, "{")));
    assert!(tokens[14].content_equal(&Token::un_located(RCurlyBrace, "}")));
    assert!(tokens[15].content_equal(&Token::un_located(EOI, "")));
}

#[test]
fn operators_prefer_longest_literal() {
    let tokens = Lexer::new("a==b||c&&d->").lex();
    let kinds: Vec<TokenKind> = tokens.iter().map(|t| t.kind()).collect();
    assert_eq!(
        kinds,
        vec![Name, TokenKind::EqualsEquals, Name, PipePipe, Name, AndAnd, Name, Arrow, EOI]
    );
}

#[test]
fn keywords_match_before_names() {
    let tokens = Lexer::new("return integer").lex();
    assert_eq!(tokens[0].kind(), Return);
    assert_eq!(tokens[1].kind(), IntType);
    assert_eq!(tokens[2].lexeme(), "eger");
}

#[test]
fn empty_text_is_only_eoi() {
    let tokens = Lexer::new("").lex();
    assert_eq!(tokens, vec![Token::new(EOI, Location::new(1, 2), "")]);
}

#[test]
fn locations_count_every_character_of_the_line() {
    let tokens = Lexer::new("{ x }\n  }").lex();
    assert_eq!(tokens[0].location(), Location::new(1, 1));
    assert_eq!(tokens[1].location(), Location::new(1, 3));
    assert_eq!(tokens[2].location(), Location::new(1, 5));
    assert_eq!(tokens[3].location(), Location::new(2, 3));
    assert_eq!(tokens[3].kind(), RCurlyBrace);
    assert_eq!(tokens[4].location(), Location::new(2, 5));
    assert_eq!(tokens[4].location().row(), 2);
    assert_eq!(tokens[4].location().column(), 5);
}

#[test]
fn a_space_moves_the_column() {
    let tokens = Lexer::new("a b").lex();
    assert_eq!(tokens[1].location(), Location::new(1, 3));
}

#[test]
fn names_may_hold_non_ascii_letters() {
    let tokens = Lexer::new("café_2 x").lex();
    assert_eq!(tokens[0].kind(), Name);
    assert_eq!(tokens[0].lexeme(), "café_2");
    assert_eq!(tokens[1].location(), Location::new(1, 8));
}
