use crate::ast::{BinaryOperator, ExprV, StmtV};
use crate::token::{TokenKind, TokenView};
use crate::typed_ast::{texpr_type, tstmt_type, TBlockV, TExprV, TStmtV, Type};
use vstd::prelude::*;

verus! {

/// One frame of the typer's scope stack: bindings from name to type, newest last.
pub type ScopeV = Seq<(Seq<char>, Type)>;

/// The scope stack, innermost last.
pub type ScopesV = Seq<ScopeV>;

/// A typing error, mathematically.
pub enum TErrV {
    NameNotFound(TokenView),
    ConflictingTypes(TokenView, Type, Type),
    InvalidType(Type, Type),
}

/// The outcome of typing a node: the typed node or an error, and the scope stack after it.
pub type TyRes<T> = (Result<T, TErrV>, ScopesV);

/// The newest binding of `name` in one scope.
pub open spec fn scope_get(sc: ScopeV, name: Seq<char>) -> Option<Type>
    decreases sc.len(),
{
    if sc.len() == 0 {
        None
    } else if sc.last().0 == name {
        Some(sc.last().1)
    } else {
        scope_get(sc.drop_last(), name)
    }
}

/// The binding of `name` in the innermost scope that has one.
pub open spec fn find_in_scopes_spec(scopes: ScopesV, name: Seq<char>) -> Option<Type>
    decreases scopes.len(),
{
    if scopes.len() == 0 {
        None
    } else {
        match scope_get(scopes.last(), name) {
            Some(t) => Some(t),
            None => find_in_scopes_spec(scopes.drop_last(), name),
        }
    }
}

/// Binds `name` to `t` in the innermost scope.
pub open spec fn bind(scopes: ScopesV, name: Seq<char>, t: Type) -> ScopesV {
    if scopes.len() == 0 {
        scopes
    } else {
        scopes.update(scopes.len() - 1, scopes.last().push((name, t)))
    }
}

/// Closes the innermost scope, if there is one.
pub open spec fn pop(scopes: ScopesV) -> ScopesV {
    if scopes.len() == 0 {
        scopes
    } else {
        scopes.drop_last()
    }
}

pub open spec fn params_scope(args: Seq<(TokenView, Type)>) -> ScopeV {
    args.map_values(|a: (TokenView, Type)| (a.0.lexeme, a.1))
}

/// The literal `0` that a demoted condition is compared against.
pub open spec fn zero_token() -> TokenView {
    TokenView { kind: TokenKind::Int, row: 0, column: 0, lexeme: seq!['0'] }
}

/// A bare integer literal in condition position becomes `literal > 0`, typed `Int`.
pub open spec fn demote(c: TExprV) -> TExprV {
    match c {
        TExprV::Int(tok) => TExprV::BinaryOperation {
            lhs: Box::new(TExprV::Int(tok)),
            operator: BinaryOperator::GreaterThan,
            rhs: Box::new(TExprV::Int(zero_token())),
            type_: Type::Int,
        },
        other => other,
    }
}

/// The type of a block: that of its last statement, `Unit` when empty.
pub open spec fn block_type(stmts: Seq<TStmtV>) -> Type {
    if stmts.len() == 0 {
        Type::Unit
    } else {
        tstmt_type(stmts.last())
    }
}

pub open spec fn type_expr_spec(sc: ScopesV, e: ExprV) -> TyRes<TExprV>
    decreases e, 0int,
{
    match e {
        ExprV::If { condition, true_block, else_block } => {
            let (rc, sc1) = type_expr_spec(sc, *condition);
            match rc {
                Err(err) => (Err(err), sc1),
                Ok(c0) => {
                    let c = demote(c0);
                    if texpr_type(c) != Type::Bool {
                        (Err(TErrV::InvalidType(texpr_type(c), Type::Bool)), sc1)
                    } else {
                        let (rt, sc2) = type_block_spec(sc1, true_block);
                        match rt {
                            Err(err) => (Err(err), sc2),
                            Ok(tb) => match else_block {
                                None => (
                                    Ok(
                                        TExprV::If {
                                            condition: Box::new(c),
                                            true_block: tb,
                                            else_block: None,
                                        },
                                    ),
                                    sc2,
                                ),
                                Some(eb) => {
                                    let (re, sc3) = type_block_spec(sc2, eb);
                                    match re {
                                        Err(err) => (Err(err), sc3),
                                        Ok(teb) => (
                                            Ok(
                                                TExprV::If {
                                                    condition: Box::new(c),
                                                    true_block: tb,
                                                    else_block: Some(teb),
                                                },
                                            ),
                                            sc3,
                                        ),
                                    }
                                },
                            },
                        }
                    }
                },
            }
        },
        ExprV::BinaryOperation { lhs, operator, rhs } => {
            let (rl, sc1) = type_expr_spec(sc, *lhs);
            match rl {
                Err(err) => (Err(err), sc1),
                Ok(l) => {
                    let (rr, sc2) = type_expr_spec(sc1, *rhs);
                    match rr {
                        Err(err) => (Err(err), sc2),
                        Ok(r) => (
                            Ok(
                                TExprV::BinaryOperation {
                                    lhs: Box::new(l),
                                    operator,
                                    rhs: Box::new(r),
                                    type_: if operator == BinaryOperator::Add {
                                        Type::Int
                                    } else {
                                        Type::Bool
                                    },
                                },
                            ),
                            sc2,
                        ),
                    }
                },
            }
        },
        ExprV::FunctionCall { name, arguments } => {
            let (ra, sc1) = type_exprs_spec(sc, arguments);
            match ra {
                Err(err) => (Err(err), sc1),
                Ok(args) => match find_in_scopes_spec(sc1, name.lexeme) {
                    None => (Err(TErrV::NameNotFound(name)), sc1),
                    Some(t) => (Ok(TExprV::FunctionCall { name, arguments: args, type_: t }), sc1),
                },
            }
        },
        ExprV::UnaryOperation { operator, rhs } => {
            let (rr, sc1) = type_expr_spec(sc, *rhs);
            match rr {
                Err(err) => (Err(err), sc1),
                Ok(r) => (Ok(TExprV::UnaryOperation { operator, rhs: Box::new(r) }), sc1),
            }
        },
        ExprV::Int(t) => (Ok(TExprV::Int(t)), sc),
        ExprV::Bool(b, t) => (Ok(TExprV::Bool(b, t)), sc),
        ExprV::List(elements) => {
            let (ra, sc1) = type_exprs_spec(sc, elements);
            match ra {
                Err(err) => (Err(err), sc1),
                Ok(items) => (
                    Ok(
                        TExprV::List(
                            items,
                            if items.len() == 0 {
                                Type::Unit
                            } else {
                                texpr_type(items[0])
                            },
                        ),
                    ),
                    sc1,
                ),
            }
        },
        ExprV::Name(t) => match find_in_scopes_spec(sc, t.lexeme) {
            None => (Err(TErrV::NameNotFound(t)), sc),
            Some(ty) => (Ok(TExprV::Name(t, ty)), sc),
        },
    }
}

/// Types expressions left to right.
pub open spec fn type_exprs_spec(sc: ScopesV, es: Seq<ExprV>) -> TyRes<Seq<TExprV>>
    decreases es, 0int,
{
    if es.len() == 0 {
        (Ok(Seq::empty()), sc)
    } else {
        let (r0, sc1) = type_expr_spec(sc, es[0]);
        match r0 {
            Err(err) => (Err(err), sc1),
            Ok(t0) => {
                let (rest, sc2) = type_exprs_spec(sc1, es.drop_first());
                match rest {
                    Err(err) => (Err(err), sc2),
                    Ok(ts) => (Ok(seq![t0] + ts), sc2),
                }
            },
        }
    }
}

pub open spec fn type_stmt_spec(sc: ScopesV, s: StmtV) -> TyRes<TStmtV>
    decreases s, 0int,
{
    match s {
        StmtV::FunctionDefinition { name, type_, arg_list, body } => {
            let sc1 = bind(sc, name.lexeme, type_).push(params_scope(arg_list));
            let (rb, sc2) = type_block_spec(sc1, body);
            match rb {
                Err(err) => (Err(err), sc2),
                Ok(tb) => (
                    Ok(TStmtV::FunctionDefinition { name, type_, arg_list, body: tb }),
                    pop(sc2),
                ),
            }
        },
        StmtV::VariableDeclaration { name, type_, value } => {
            let (rv, sc1) = type_expr_spec(bind(sc, name.lexeme, type_), value);
            match rv {
                Err(err) => (Err(err), sc1),
                Ok(v) => if texpr_type(v) != type_ {
                    (Err(TErrV::ConflictingTypes(name, type_, texpr_type(v))), sc1)
                } else {
                    (Ok(TStmtV::VariableDeclaration { name, type_, value: v }), sc1)
                },
            }
        },
        StmtV::Assignment { to, value } => {
            let (rv, sc1) = type_expr_spec(sc, value);
            match rv {
                Err(err) => (Err(err), sc1),
                Ok(v) => match if sc1.len() == 0 {
                    None
                } else {
                    scope_get(sc1.last(), to.lexeme)
                } {
                    None => (Err(TErrV::NameNotFound(to)), sc1),
                    Some(declared) => if declared != texpr_type(v) {
                        (Err(TErrV::ConflictingTypes(to, declared, texpr_type(v))), sc1)
                    } else {
                        (Ok(TStmtV::Assignment { to, value: v }), sc1)
                    },
                },
            }
        },
        StmtV::While { condition, body } => {
            let (rc, sc1) = type_expr_spec(sc, condition);
            match rc {
                Err(err) => (Err(err), sc1),
                Ok(c) => {
                    let (rb, sc2) = type_block_spec(sc1, body);
                    match rb {
                        Err(err) => (Err(err), sc2),
                        Ok(tb) => (Ok(TStmtV::While { condition: c, body: tb }), sc2),
                    }
                },
            }
        },
        StmtV::Return(e) => {
            let (r, sc1) = type_expr_spec(sc, e);
            match r {
                Err(err) => (Err(err), sc1),
                Ok(te) => (Ok(TStmtV::Return(te)), sc1),
            }
        },
        StmtV::Expression(e) => {
            let (r, sc1) = type_expr_spec(sc, e);
            match r {
                Err(err) => (Err(err), sc1),
                Ok(te) => (Ok(TStmtV::Expression(te)), sc1),
            }
        },
    }
}

/// Types statements in order, each in the scopes the previous one left.
pub open spec fn type_stmts_spec(sc: ScopesV, b: Seq<StmtV>) -> TyRes<Seq<TStmtV>>
    decreases b, 0int,
{
    if b.len() == 0 {
        (Ok(Seq::empty()), sc)
    } else {
        let (r0, sc1) = type_stmt_spec(sc, b[0]);
        match r0 {
            Err(err) => (Err(err), sc1),
            Ok(t0) => {
                let (rest, sc2) = type_stmts_spec(sc1, b.drop_first());
                match rest {
                    Err(err) => (Err(err), sc2),
                    Ok(ts) => (Ok(seq![t0] + ts), sc2),
                }
            },
        }
    }
}

pub open spec fn type_block_spec(sc: ScopesV, b: Seq<StmtV>) -> TyRes<TBlockV>
    decreases b, 1int,
{
    let (r, sc1) = type_stmts_spec(sc, b);
    match r {
        Err(err) => (Err(err), sc1),
        Ok(ts) => (Ok(TBlockV { body: ts, type_: block_type(ts) }), sc1),
    }
}

/// The typed program: its statements typed from one empty scope.
pub open spec fn type_program_spec(ast: Seq<StmtV>) -> Result<Seq<TStmtV>, TErrV> {
    type_stmts_spec(seq![Seq::empty()], ast).0
}


/// The typed forms of the statements before the first one that fails to type
/// (all of them when none fails), each typed in the scopes the previous one left.
pub open spec fn typed_prefix_spec(sc: ScopesV, b: Seq<StmtV>) -> Seq<TStmtV>
    decreases b.len(),
{
    if b.len() == 0 {
        Seq::empty()
    } else {
        match type_stmt_spec(sc, b[0]) {
            (Err(_), _) => Seq::empty(),
            (Ok(t0), sc1) => seq![t0] + typed_prefix_spec(sc1, b.drop_first()),
        }
    }
}

} // verus!
