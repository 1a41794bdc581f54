use langc::s_expr::{SExpr, SExprToken};

#[test]
fn token_word() {
    let text = "cat";
    let tokens = SExpr::tokenize(text);
    assert_eq!(tokens, vec![SExprToken::Value(String::from("cat"))])
}

#[test]
fn token_function() {
    let text = "(+ 1 2)";
    let tokens = SExpr::tokenize(text);
    assert_eq!(
        tokens,
        vec![
            SExprToken::LParen,
            SExprToken::Value(String::from("+")),
            SExprToken::Value(String::from("1")),
            SExprToken::Value(String::from("2")),
            SExprToken::RParen
        ]
    )
}

#[test]
fn token_function_nested() {
    let text = "(+ (- 1 2) 3)";
    let tokens = SExpr::tokenize(text);
    assert_eq!(
        tokens,
        vec![
            SExprToken::LParen,
            SExprToken::Value(String::from("+")),
            SExprToken::LParen,
            SExprToken::Value(String::from("-")),
            SExprToken::Value(String::from("1")),
            SExprToken::Value(String::from("2")),
            SExprToken::RParen,
            SExprToken::Value(String::from("3")),
            SExprToken::RParen
        ]
    )
}

#[test]
fn no_rec() {
    let text = "cat";
    let test = SExpr::parse(text);
    assert_eq!(test, SExpr::Value(String::from("cat")))
}

#[test]
fn s_expr_func_call() {
    let text = "(+ 1 2)";
    let test = SExpr::parse(text);
    assert_eq!(
        test,
        SExpr::Function(
            String::from("+"),
            vec![SExpr::Value(String::from("1")), SExpr::Value(String::from("2")),]
        )
    )
}

#[test]
fn nested_func() {
    let text = "(+ (- 1 2) 3)";
    let test = SExpr::parse(text);
    assert_eq!(
        test,
        SExpr::Function(
            String::from("+"),
            vec![
                SExpr::Function(
                    String::from("-"),
                    vec![SExpr::Value(String::from("1")), SExpr::Value(String::from("2")),]
                ),
                SExpr::Value(String::from("3")),
            ]
        )
    )
}

#[test]
fn release_splits_head_and_arguments() {
    let (head, args) = SExpr::parse("(f a b)").release();
    assert_eq!(head, "f");
    assert_eq!(args.len(), 2);
    let (head, args) = SExpr::parse("x").release();
    assert_eq!(head, "x");
    assert!(args.is_empty());
}

#[test]
fn any_white_space_separates_words() {
    let tokens = SExpr::tokenize("a\tb\u{2003}c");
    assert_eq!(
        tokens,
        vec![
            SExprToken::Value(String::from("a")),
            SExprToken::Value(String::from("b")),
            SExprToken::Value(String::from("c"))
        ]
    );
}

#[test]
fn reading_nothing_gives_an_empty_value() {
    assert_eq!(SExpr::parse(""), SExpr::Value(String::new()));
    assert_eq!(SExpr::parse("()"), SExpr::Value(String::new()));
}
