use crate::ast::{BinaryOperator, ExprV, StmtV, UnaryOperator};
use crate::token::{TokenKind, TokenView};
use crate::token_holder::{kind_at, tok_at};
use crate::typed_ast::Type;
use vstd::prelude::*;

verus! {

/// Why parsing stopped.
#[derive(Debug, Clone, Copy, PartialEq, Eq, Structural)]
pub enum ParserErrorKind {
    UnexpectedToken,
    InvalidName,
}

/// A parse error, mathematically: its kind and the token it points at.
pub type PErr = (ParserErrorKind, TokenView);

/// The outcome of parsing a `T` from a position: the value and the position after it.
pub type PRes<T> = Result<(T, int), PErr>;

pub open spec fn unexpected(t: Seq<TokenView>, p: int) -> PErr {
    (ParserErrorKind::UnexpectedToken, tok_at(t, p))
}

pub open spec fn invalid(t: Seq<TokenView>, p: int) -> PErr {
    (ParserErrorKind::InvalidName, tok_at(t, p))
}

/// A sub-parse from `p` that ended at `q` consumed input and stayed in bounds;
/// every successful parse does (see the parser's contracts).
pub open spec fn advanced(t: Seq<TokenView>, p: int, q: int) -> bool {
    0 <= p < q <= t.len()
}

pub open spec fn binary(lhs: ExprV, operator: BinaryOperator, rhs: ExprV) -> ExprV {
    ExprV::BinaryOperation { lhs: Box::new(lhs), operator, rhs: Box::new(rhs) }
}

/// `type ::= "int" | "bool" | "list" type`
pub open spec fn parse_type_spec(t: Seq<TokenView>, p: int) -> PRes<Type>
    decreases t.len() - p, 1int,
{
    let k = kind_at(t, p);
    if k == TokenKind::IntType {
        Ok((Type::Int, p + 1))
    } else if k == TokenKind::BoolType {
        Ok((Type::Bool, p + 1))
    } else if k == TokenKind::ListType && p < t.len() {
        match parse_type_spec(t, p + 1) {
            Ok((inner, q)) => Ok((Type::List(Box::new(inner)), q)),
            Err(e) => Err(e),
        }
    } else {
        Err(unexpected(t, p))
    }
}

/// An atom: a parenthesised expression, a list literal, a literal, a name or a
/// call, or an `if` expression.
pub open spec fn parse_atom_spec(t: Seq<TokenView>, p: int) -> PRes<ExprV>
    decreases t.len() - p, 2int,
{
    let tok = tok_at(t, p);
    let k = tok.kind;
    if k == TokenKind::EOI || p < 0 || p >= t.len() {
        Err(unexpected(t, p))
    } else if k == TokenKind::LParen {
        match parse_expr_spec(t, p + 1) {
            Ok((inside, q)) => if kind_at(t, q) == TokenKind::RParen {
                Ok((inside, q + 1))
            } else {
                Err(unexpected(t, q))
            },
            Err(e) => Err(e),
        }
    } else if k == TokenKind::LBracket {
        match parse_list_spec(t, p + 1, TokenKind::RBracket, seq![]) {
            Ok((items, q)) => Ok((ExprV::List(items), q)),
            Err(e) => Err(e),
        }
    } else if k == TokenKind::Int {
        Ok((ExprV::Int(tok), p + 1))
    } else if k == TokenKind::True {
        Ok((ExprV::Bool(true, tok), p + 1))
    } else if k == TokenKind::False {
        Ok((ExprV::Bool(false, tok), p + 1))
    } else if k == TokenKind::Name {
        if kind_at(t, p + 1) == TokenKind::LParen && p + 1 < t.len() {
            match parse_list_spec(t, p + 2, TokenKind::RParen, seq![]) {
                Ok((arguments, q)) => Ok((ExprV::FunctionCall { name: tok, arguments }, q)),
                Err(e) => Err(e),
            }
        } else {
            Ok((ExprV::Name(tok), p + 1))
        }
    } else if k == TokenKind::If {
        match parse_expr_spec(t, p + 1) {
            Ok((condition, q)) => if advanced(t, p, q) {
                match parse_block_spec(t, q) {
                    Ok((true_block, r)) => if !advanced(t, p, r) {
                        Err(unexpected(t, r))
                    } else if kind_at(t, r) != TokenKind::Else {
                        Ok(
                            (
                                ExprV::If {
                                    condition: Box::new(condition),
                                    true_block,
                                    else_block: None,
                                },
                                r,
                            ),
                        )
                    } else if kind_at(t, r + 1) == TokenKind::If {
                        match parse_atom_spec(t, r + 1) {
                            Ok((nested, s)) => Ok(
                                (
                                    ExprV::If {
                                        condition: Box::new(condition),
                                        true_block,
                                        else_block: Some(seq![StmtV::Expression(nested)]),
                                    },
                                    s,
                                ),
                            ),
                            Err(e) => Err(e),
                        }
                    } else {
                        match parse_block_spec(t, r + 1) {
                            Ok((else_block, s)) => Ok(
                                (
                                    ExprV::If {
                                        condition: Box::new(condition),
                                        true_block,
                                        else_block: Some(else_block),
                                    },
                                    s,
                                ),
                            ),
                            Err(e) => Err(e),
                        }
                    },
                    Err(e) => Err(e),
                }
            } else {
                Err(unexpected(t, q))
            },
            Err(e) => Err(e),
        }
    } else {
        Err(unexpected(t, p))
    }
}

/// `-` atom, or an atom.
pub open spec fn parse_unary_sub_spec(t: Seq<TokenView>, p: int) -> PRes<ExprV>
    decreases t.len() - p, 3int,
{
    if kind_at(t, p) == TokenKind::Minus && 0 <= p < t.len() {
        match parse_atom_spec(t, p + 1) {
            Ok((rhs, q)) => Ok(
                (ExprV::UnaryOperation { operator: UnaryOperator::Sub, rhs: Box::new(rhs) }, q),
            ),
            Err(e) => Err(e),
        }
    } else {
        parse_atom_spec(t, p)
    }
}

/// The rest of a left-associative chain of `+` after `lhs`, from `q`.
pub open spec fn add_tail_spec(t: Seq<TokenView>, lhs: ExprV, q: int) -> PRes<ExprV>
    decreases t.len() - q, 4int,
{
    if kind_at(t, q) == TokenKind::Plus && 0 <= q < t.len() {
        match parse_unary_sub_spec(t, q + 1) {
            Ok((rhs, r)) => if advanced(t, q, r) {
                add_tail_spec(t, binary(lhs, BinaryOperator::Add, rhs), r)
            } else {
                Err(unexpected(t, r))
            },
            Err(e) => Err(e),
        }
    } else {
        Ok((lhs, q))
    }
}

pub open spec fn parse_add_spec(t: Seq<TokenView>, p: int) -> PRes<ExprV>
    decreases t.len() - p, 5int,
{
    match parse_unary_sub_spec(t, p) {
        Ok((lhs, q)) => if advanced(t, p, q) {
            add_tail_spec(t, lhs, q)
        } else {
            Err(unexpected(t, q))
        },
        Err(e) => Err(e),
    }
}

pub open spec fn comparison_tail_spec(t: Seq<TokenView>, lhs: ExprV, q: int) -> PRes<ExprV>
    decreases t.len() - q, 6int,
{
    if kind_at(t, q) == TokenKind::RAngleBracket && 0 <= q < t.len() {
        match parse_add_spec(t, q + 1) {
            Ok((rhs, r)) => if advanced(t, q, r) {
                comparison_tail_spec(t, binary(lhs, BinaryOperator::GreaterThan, rhs), r)
            } else {
                Err(unexpected(t, r))
            },
            Err(e) => Err(e),
        }
    } else {
        Ok((lhs, q))
    }
}

pub open spec fn parse_comparison_spec(t: Seq<TokenView>, p: int) -> PRes<ExprV>
    decreases t.len() - p, 7int,
{
    match parse_add_spec(t, p) {
        Ok((lhs, q)) => if advanced(t, p, q) {
            comparison_tail_spec(t, lhs, q)
        } else {
            Err(unexpected(t, q))
        },
        Err(e) => Err(e),
    }
}

pub open spec fn equality_tail_spec(t: Seq<TokenView>, lhs: ExprV, q: int) -> PRes<ExprV>
    decreases t.len() - q, 8int,
{
    if kind_at(t, q) == TokenKind::EqualsEquals && 0 <= q < t.len() {
        match parse_comparison_spec(t, q + 1) {
            Ok((rhs, r)) => if advanced(t, q, r) {
                equality_tail_spec(t, binary(lhs, BinaryOperator::Equals, rhs), r)
            } else {
                Err(unexpected(t, r))
            },
            Err(e) => Err(e),
        }
    } else {
        Ok((lhs, q))
    }
}

pub open spec fn parse_equality_spec(t: Seq<TokenView>, p: int) -> PRes<ExprV>
    decreases t.len() - p, 9int,
{
    match parse_comparison_spec(t, p) {
        Ok((lhs, q)) => if advanced(t, p, q) {
            equality_tail_spec(t, lhs, q)
        } else {
            Err(unexpected(t, q))
        },
        Err(e) => Err(e),
    }
}

/// `!` equality, or an equality.
pub open spec fn parse_logical_negation_spec(t: Seq<TokenView>, p: int) -> PRes<ExprV>
    decreases t.len() - p, 10int,
{
    if kind_at(t, p) == TokenKind::Bang && 0 <= p < t.len() {
        match parse_equality_spec(t, p + 1) {
            Ok((rhs, q)) => Ok(
                (ExprV::UnaryOperation { operator: UnaryOperator::Not, rhs: Box::new(rhs) }, q),
            ),
            Err(e) => Err(e),
        }
    } else {
        parse_equality_spec(t, p)
    }
}

/// The rest of a left-associative chain of `||` and `&&` (one level) after `lhs`.
pub open spec fn logical_tail_spec(t: Seq<TokenView>, lhs: ExprV, q: int) -> PRes<ExprV>
    decreases t.len() - q, 11int,
{
    let k = kind_at(t, q);
    if (k == TokenKind::PipePipe || k == TokenKind::AndAnd) && 0 <= q < t.len() {
        let op = if k == TokenKind::PipePipe {
            BinaryOperator::Or
        } else {
            BinaryOperator::And
        };
        match parse_logical_negation_spec(t, q + 1) {
            Ok((rhs, r)) => if advanced(t, q, r) {
                logical_tail_spec(t, binary(lhs, op, rhs), r)
            } else {
                Err(unexpected(t, r))
            },
            Err(e) => Err(e),
        }
    } else {
        Ok((lhs, q))
    }
}

pub open spec fn parse_logical_spec(t: Seq<TokenView>, p: int) -> PRes<ExprV>
    decreases t.len() - p, 12int,
{
    match parse_logical_negation_spec(t, p) {
        Ok((lhs, q)) => if advanced(t, p, q) {
            logical_tail_spec(t, lhs, q)
        } else {
            Err(unexpected(t, q))
        },
        Err(e) => Err(e),
    }
}

/// An expression, at the lowest precedence.
pub open spec fn parse_expr_spec(t: Seq<TokenView>, p: int) -> PRes<ExprV>
    decreases t.len() - p, 13int,
{
    parse_logical_spec(t, p)
}

/// Comma-separated expressions closed by `ending`, after `acc`; a trailing comma is allowed.
pub open spec fn parse_list_spec(t: Seq<TokenView>, p: int, ending: TokenKind, acc: Seq<ExprV>) -> PRes<
    Seq<ExprV>,
>
    decreases t.len() - p, 14int,
{
    if kind_at(t, p) == ending && 0 <= p < t.len() {
        Ok((acc, p + 1))
    } else {
        match parse_expr_spec(t, p) {
            Ok((item, q)) => if !advanced(t, p, q) {
                Err(unexpected(t, q))
            } else if kind_at(t, q) == TokenKind::Comma && q < t.len() {
                parse_list_spec(t, q + 1, ending, acc.push(item))
            } else if kind_at(t, q) == ending {
                parse_list_spec(t, q, ending, acc.push(item))
            } else {
                Err(unexpected(t, q))
            },
            Err(e) => Err(e),
        }
    }
}

/// One parameter: `Name ":" type`.
pub open spec fn parse_param_spec(t: Seq<TokenView>, p: int) -> PRes<(TokenView, Type)>
    decreases t.len() - p, 3int,
{
    match parse_atom_spec(t, p) {
        Ok((e, q)) => match e {
            ExprV::Name(name) => if !advanced(t, p, q) {
                Err(unexpected(t, q))
            } else if kind_at(t, q) != TokenKind::Colon || q >= t.len() {
                Err(unexpected(t, q))
            } else {
                match parse_type_spec(t, q + 1) {
                    Ok((ty, r)) => Ok(((name, ty), r)),
                    Err(e) => Err(e),
                }
            },
            _ => Err(invalid(t, p)),
        },
        Err(e) => Err(e),
    }
}

/// Comma-separated parameters closed by `)`, after `acc`.
pub open spec fn parse_params_spec(t: Seq<TokenView>, p: int, acc: Seq<(TokenView, Type)>) -> PRes<
    Seq<(TokenView, Type)>,
>
    decreases t.len() - p, 14int,
{
    if kind_at(t, p) == TokenKind::RParen && 0 <= p < t.len() {
        Ok((acc, p + 1))
    } else {
        match parse_param_spec(t, p) {
            Ok((item, q)) => if !advanced(t, p, q) {
                Err(unexpected(t, q))
            } else if kind_at(t, q) == TokenKind::Comma && q < t.len() {
                parse_params_spec(t, q + 1, acc.push(item))
            } else if kind_at(t, q) == TokenKind::RParen {
                parse_params_spec(t, q, acc.push(item))
            } else {
                Err(unexpected(t, q))
            },
            Err(e) => Err(e),
        }
    }
}

/// After `let`: `Name ":" type "=" expr`.
pub open spec fn parse_var_declaration_spec(t: Seq<TokenView>, p: int) -> PRes<StmtV>
    decreases t.len() - p, 3int,
{
    match parse_atom_spec(t, p) {
        Ok((e, q)) => match e {
            ExprV::Name(name) => if !advanced(t, p, q) {
                Err(unexpected(t, q))
            } else if kind_at(t, q) != TokenKind::Colon || q >= t.len() {
                Err(unexpected(t, q))
            } else {
                match parse_type_spec(t, q + 1) {
                    Ok((ty, r)) => if !advanced(t, q, r) {
                        Err(unexpected(t, r))
                    } else if kind_at(t, r) != TokenKind::Equals || r >= t.len() {
                        Err(unexpected(t, r))
                    } else {
                        match parse_expr_spec(t, r + 1) {
                            Ok((value, s)) => Ok(
                                (StmtV::VariableDeclaration { name, type_: ty, value }, s),
                            ),
                            Err(e) => Err(e),
                        }
                    },
                    Err(e) => Err(e),
                }
            },
            _ => Err(invalid(t, p)),
        },
        Err(e) => Err(e),
    }
}

/// A statement's end: a `;`, which is consumed, or a `}`, which is not.
pub open spec fn eat_semicolon_spec(t: Seq<TokenView>, q: int) -> Result<int, PErr> {
    if kind_at(t, q) == TokenKind::Semicolon && 0 <= q < t.len() {
        Ok(q + 1)
    } else if kind_at(t, q) == TokenKind::RCurlyBrace {
        Ok(q)
    } else {
        Err(unexpected(t, q))
    }
}

pub open spec fn then_semicolon(t: Seq<TokenView>, r: PRes<StmtV>) -> PRes<StmtV> {
    match r {
        Ok((s, q)) => match eat_semicolon_spec(t, q) {
            Ok(q2) => Ok((s, q2)),
            Err(e) => Err(e),
        },
        Err(e) => Err(e),
    }
}

/// After `fn`: `Name "(" params ")" "->" type block`.
pub open spec fn parse_function_spec(t: Seq<TokenView>, p: int) -> PRes<StmtV>
    decreases t.len() - p, 15int,
{
    if kind_at(t, p) != TokenKind::Name || p < 0 || p >= t.len() {
        Err(invalid(t, p))
    } else if kind_at(t, p + 1) != TokenKind::LParen || p + 1 >= t.len() {
        Err(unexpected(t, p + 1))
    } else {
        match parse_params_spec(t, p + 2, seq![]) {
            Ok((args, q)) => if !advanced(t, p, q) {
                Err(unexpected(t, q))
            } else if kind_at(t, q) != TokenKind::Arrow || q >= t.len() {
                Err(unexpected(t, q))
            } else {
                match parse_type_spec(t, q + 1) {
                    Ok((ty, r)) => if !advanced(t, p, r) {
                        Err(unexpected(t, r))
                    } else {
                        match parse_block_spec(t, r) {
                            Ok((body, s)) => Ok(
                                (
                                    StmtV::FunctionDefinition {
                                        name: tok_at(t, p),
                                        type_: ty,
                                        arg_list: args,
                                        body,
                                    },
                                    s,
                                ),
                            ),
                            Err(e) => Err(e),
                        }
                    },
                    Err(e) => Err(e),
                }
            },
            Err(e) => Err(e),
        }
    }
}

/// A statement: a declaration, a function definition, a loop, a return, an
/// assignment or an expression.
pub open spec fn parse_statement_spec(t: Seq<TokenView>, p: int) -> PRes<StmtV>
    decreases t.len() - p, 16int,
{
    let k = kind_at(t, p);
    if p < 0 || p > t.len() {
        Err(unexpected(t, p))
    } else if k == TokenKind::Let && p < t.len() {
        then_semicolon(t, parse_var_declaration_spec(t, p + 1))
    } else if k == TokenKind::While && p < t.len() {
        match parse_expr_spec(t, p + 1) {
            Ok((condition, q)) => if !advanced(t, p, q) {
                Err(unexpected(t, q))
            } else {
                match parse_block_spec(t, q) {
                    Ok((body, r)) => Ok(
                        (
                            StmtV::While { condition, body },
                            if kind_at(t, r) == TokenKind::Semicolon && 0 <= r < t.len() {
                                r + 1
                            } else {
                                r
                            },
                        ),
                    ),
                    Err(e) => Err(e),
                }
            },
            Err(e) => Err(e),
        }
    } else if k == TokenKind::Fn && p < t.len() {
        parse_function_spec(t, p + 1)
    } else if k == TokenKind::Return && p < t.len() {
        match parse_expr_spec(t, p + 1) {
            Ok((e, q)) => then_semicolon(t, Ok((StmtV::Return(e), q))),
            Err(e) => Err(e),
        }
    } else {
        match parse_expr_spec(t, p) {
            Ok((e, q)) => if !advanced(t, p, q) {
                Err(unexpected(t, q))
            } else {
                match e {
                    ExprV::Name(to) => if kind_at(t, q) == TokenKind::Equals && q < t.len() {
                        match parse_expr_spec(t, q + 1) {
                            Ok((value, r)) => then_semicolon(
                                t,
                                Ok((StmtV::Assignment { to, value }, r)),
                            ),
                            Err(e) => Err(e),
                        }
                    } else {
                        then_semicolon(t, Ok((StmtV::Expression(e), q)))
                    },
                    ExprV::If { .. } => if kind_at(t, q) == TokenKind::Semicolon && q < t.len() {
                        Ok((StmtV::Expression(e), q + 1))
                    } else {
                        Ok((StmtV::Expression(e), q))
                    },
                    _ => then_semicolon(t, Ok((StmtV::Expression(e), q))),
                }
            },
            Err(e) => Err(e),
        }
    }
}

/// Statements up to and including the closing `}`, after `acc`.
pub open spec fn parse_statements_spec(t: Seq<TokenView>, p: int, acc: Seq<StmtV>) -> PRes<
    Seq<StmtV>,
>
    decreases t.len() - p, 17int,
{
    if kind_at(t, p) == TokenKind::RCurlyBrace && 0 <= p < t.len() {
        Ok((acc, p + 1))
    } else {
        match parse_statement_spec(t, p) {
            Ok((s, q)) => if advanced(t, p, q) {
                parse_statements_spec(t, q, acc.push(s))
            } else {
                Err(unexpected(t, q))
            },
            Err(e) => Err(e),
        }
    }
}

/// `"{" statement* "}"`
pub open spec fn parse_block_spec(t: Seq<TokenView>, p: int) -> PRes<Seq<StmtV>>
    decreases t.len() - p, 18int,
{
    if kind_at(t, p) == TokenKind::LCurlyBrace && 0 <= p < t.len() {
        parse_statements_spec(t, p + 1, seq![])
    } else {
        Err(unexpected(t, p))
    }
}

/// Top-level statements from `p` up to `EOI`, after `acc`.
pub open spec fn parse_program_spec(t: Seq<TokenView>, p: int, acc: Seq<StmtV>) -> Result<
    Seq<StmtV>,
    PErr,
>
    decreases t.len() - p, 17int,
{
    if kind_at(t, p) == TokenKind::EOI || p < 0 || p >= t.len() {
        Ok(acc)
    } else {
        match parse_statement_spec(t, p) {
            Ok((s, q)) => if advanced(t, p, q) {
                parse_program_spec(t, q, acc.push(s))
            } else {
                Err(unexpected(t, q))
            },
            Err(e) => Err(e),
        }
    }
}

} // verus!
