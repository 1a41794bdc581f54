use langc::ir_builder::convert;
use langc::ir_spec::IrError;
use langc::parser::Parser;
use langc::pipeline::{ir_text, CompileError};
use langc::s_expr::{SExpr, ToSExpr};
use langc::typer::{Typer, TypingError};

const THE_UNIVERSE: &str = "fn main() -> int { return 42; }";
const THE_UNIVERSE_BY_ADDITION: &str = "fn main() -> int {
    return 20 + 22;
}";

#[test]
fn ir_builder_forty_two() {
    let ast = Parser::new(THE_UNIVERSE).parse().unwrap();
    let typed = Typer::type_ast(ast).unwrap();
    let converted = convert(&typed).unwrap();
    assert_eq!(converted.join("\n"), "define i32 @main() {\n\tret i32 42\n}");
}

#[test]
fn ir_builder_forty_two_add() {
    let ast = Parser::new(THE_UNIVERSE_BY_ADDITION).parse().unwrap();
    let typed = Typer::type_ast(ast).unwrap();
    let converted = convert(&typed).unwrap();
    assert_eq!(converted.join("\n"), "define i32 @main() {\n\t%add_1 = add i32 20, 22\n\tret i32 %add_1\n}");
}

#[test]
fn assignment_round_trips_through_the_slot() {
    let ir = ir_text("fn main() -> int { let a: int = 20; a = a + 22; return a; }").unwrap();
    assert_eq!(ir, vec![
        "define i32 @main() {",
        "\t%a = alloca i32",
        "\tstore i32 20, i32* %a",
        "\t%a_1 = load i32, i32* %a",
        "\t%add_1 = add i32 %a_1, 22",
        "\tstore i32 %add_1, i32* %a",
        "\t%a_2 = load i32, i32* %a",
        "\tret i32 %a_2",
        "}",
    ]);
}

#[test]
fn while_loop_layout() {
    let ir = ir_text("fn main() -> int { let x:int=0; while 42 > x { x = x + 1 } return x; }").unwrap();
    assert_eq!(ir, vec![
        "define i32 @main() {",
        "\t%x = alloca i32",
        "\tstore i32 0, i32* %x",
        "\t\tbr label %while_1",
        "\t\twhile_1:",
        "\t\t%x_1 = load i32, i32* %x",
        "\t\t%gt_1 = icmp sgt i32 42, %x_1",
        "\t\tbr i1 %gt_1, label %while_true_1, label %while_end_1",
        "\t\twhile_true_1:",
        "\t\t\t%x_2 = load i32, i32* %x",
        "\t\t\t%add_1 = add i32 %x_2, 1",
        "\t\t\tstore i32 %add_1, i32* %x",
        "\t\tbr label %while_1",
        "\t\twhile_end_1:",
        "\t%x_3 = load i32, i32* %x",
        "\tret i32 %x_3",
        "}",
    ]);
}

#[test]
fn calls_pass_typed_arguments() {
    let ir = ir_text("fn universe(a:int,b:int)->int{return a+b;} fn main()->int{return universe(20,22);}").unwrap();
    assert_eq!(ir, vec![
        "define i32 @universe(i32 %_a, i32 %_b) {",
        "\t%a = alloca i32",
        "\tstore i32 %_a, i32* %a",
        "\t%b = alloca i32",
        "\tstore i32 %_b, i32* %b",
        "\t%a_1 = load i32, i32* %a",
        "\t%b_1 = load i32, i32* %b",
        "\t%add_1 = add i32 %a_1, %b_1",
        "\tret i32 %add_1",
        "}",
        "define i32 @main() {",
        "\t%function_universe_1 = call i32 @universe(i32 20,i32 22)",
        "\tret i32 %function_universe_1",
        "}",
    ]);
}

#[test]
fn if_statement_layout() {
    let ir = ir_text("fn main() -> int { if 0 == 0 { return 42; } return 0; }").unwrap();
    assert_eq!(ir, vec![
        "define i32 @main() {",
        "\t\t%if_ret_var_1 = alloca i32",
        "\t\t%eq_1 = icmp eq i32 0, 0",
        "\t\tbr i1 %eq_1, label %if_true_1, label %if_else_1",
        "\t\tif_true_1:",
        "\t\t\tret i32 42",
        "\t\tbr label %if_end_1",
        "\t\tif_else_1:",
        "\t\tbr label %if_end_1",
        "\t\tif_end_1:",
        "\t\t%if_ret_var_1_1 = load i32, i32* %if_ret_var_1",
        "\tret i32 0",
        "}",
    ]);
}

#[test]
fn negation_and_booleans() {
    let ir = ir_text("fn main() -> int { return 62 + -20; }").unwrap();
    assert_eq!(ir[1], "\t%sub_1 = sub i32 0, 20");
    assert_eq!(ir[2], "\t%add_1 = add i32 62, %sub_1");
    let ir = ir_text("fn main() -> bool { return (1 > 0) && true; }").unwrap();
    assert_eq!(ir[1], "\t%gt_1 = icmp sgt i32 1, 0");
    assert_eq!(ir[2], "\t%and_1 = and i1 %gt_1, 1");
    assert_eq!(ir[3], "\tret i1 %and_1");
}

#[test]
fn compiling_twice_gives_the_same_text() {
    let src = "fn main() -> int { let x:int=0; while 42 > x { x = x + 1 } return x; }";
    assert_eq!(ir_text(src).unwrap(), ir_text(src).unwrap());
}

#[test]
fn unknown_name_is_reported() {
    let ast = Parser::new("fn main() -> int { return y; }").parse().unwrap();
    match Typer::type_ast(ast) {
        Err(TypingError::NameNotFound(t)) => assert_eq!(t.lexeme(), "y"),
        other => panic!("unexpected result: {:?}", other.is_ok()),
    }
}

#[test]
fn declared_type_must_match() {
    let ast = Parser::new("let x: int = true;").parse().unwrap();
    match Typer::type_ast(ast) {
        Err(TypingError::ConflictingTypes(t, declared, actual)) => {
            assert_eq!(t.lexeme(), "x");
            assert_eq!(declared, langc::typed_ast::Type::Int);
            assert_eq!(actual, langc::typed_ast::Type::Bool);
        },
        other => panic!("unexpected result: {:?}", other.is_ok()),
    }
}

#[test]
fn bare_integer_condition_is_demoted_and_rejected() {
    let ast = Parser::new("if 1 { 2 }").parse().unwrap();
    match Typer::type_ast(ast) {
        Err(TypingError::InvalidType(actual, expected)) => {
            assert_eq!(actual, langc::typed_ast::Type::Int);
            assert_eq!(expected, langc::typed_ast::Type::Bool);
        },
        other => panic!("unexpected result: {:?}", other.is_ok()),
    }
}

#[test]
fn assignment_sees_only_the_current_scope() {
    let ast = Parser::new("let x: int = 1; fn f() -> int { x = 2; return 0; }").parse().unwrap();
    assert!(matches!(Typer::type_ast(ast), Err(TypingError::NameNotFound(_))));
}

#[test]
fn lists_are_not_lowered() {
    assert!(matches!(ir_text("fn main() -> int { [1]; return 0; }"), Err(CompileError::Lowering(IrError::UnsupportedType))));
}

#[test]
fn pipeline_reports_each_stage() {
    assert!(matches!(ir_text("fn main( -> int {}"), Err(CompileError::Parse(_))));
    assert!(matches!(ir_text("fn main() -> int { return z; }"), Err(CompileError::Typing(_))));
}

#[test]
fn typer_forty_two() {
    let ast = Parser::new(THE_UNIVERSE).parse().unwrap();
    let typed = Typer::type_ast(ast).unwrap();
    let printed: Vec<SExpr> = typed.iter().map(|x| x.to_s_expr()).collect();
    assert_eq!(printed[0], SExpr::parse("(function_define main (int int) ->int)"))
}

#[test]
fn run_typer_keeps_statements_before_an_error() {
    let ast = Parser::new("let x: int = 1; let y: bool = true; z = 2; let w: int = 3;").parse().unwrap();
    let mut typer = Typer::new();
    assert!(matches!(typer.run_typer(ast), Err(TypingError::NameNotFound(_))));
    assert_eq!(typer.typed().len(), 2);
}

#[test]
fn temps_print_with_one_percent_sign() {
    let ir = ir_text("fn main() -> int { let a: int = 1; return a; }").unwrap();
    assert_eq!(ir[3], "\t%a_1 = load i32, i32* %a");
    assert_eq!(ir[4], "\tret i32 %a_1");
}
