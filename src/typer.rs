use crate::ast::{block_view, exprs_view, param_views, BinaryOperator, Block, Expression, Statement, StmtV, ExprV};
use crate::token::{Token, TokenKind, TokenView};
use crate::typed_ast::{
    arg_views, texpr_type, FunctionDefinition, TBlockV, TExprV, TStmtV, Type, TypedBlock,
    TypedExpression, TypedStatement,
};
use crate::typer_spec::{
    bind, block_type, pop, demote, find_in_scopes_spec, params_scope, scope_get, type_block_spec,
    type_expr_spec, type_exprs_spec, type_program_spec, type_stmt_spec, type_stmts_spec, typed_prefix_spec,
    zero_token, ScopeV, ScopesV, TErrV, TyRes,
};
use vstd::prelude::*;
use vstd::string::*;

verus! {

/// Why a program does not type.
#[derive(Debug)]
pub enum TypingError {
    NameNotFound(Token),
    ConflictingTypes(Token, Type, Type),
    InvalidType(Type, Type),
}

impl View for TypingError {
    type V = TErrV;

    open spec fn view(&self) -> TErrV {
        match self {
            TypingError::NameNotFound(t) => TErrV::NameNotFound(t@),
            TypingError::ConflictingTypes(t, a, b) => TErrV::ConflictingTypes(t@, *a, *b),
            TypingError::InvalidType(a, b) => TErrV::InvalidType(*a, *b),
        }
    }
}

pub open spec fn scope_view(sc: Seq<(String, Type)>) -> ScopeV {
    sc.map_values(|b: (String, Type)| (b.0@, b.1))
}

pub open spec fn texpr_res(r: Result<TypedExpression, TypingError>) -> Result<TExprV, TErrV> {
    match r {
        Ok(v) => Ok(v@),
        Err(e) => Err(e@),
    }
}

pub open spec fn texprs_view(v: Seq<TypedExpression>) -> Seq<TExprV> {
    v.map_values(|e: TypedExpression| e@)
}

pub open spec fn texprs_res(r: Result<Vec<TypedExpression>, TypingError>) -> Result<Seq<TExprV>, TErrV> {
    match r {
        Ok(v) => Ok(texprs_view(v@)),
        Err(e) => Err(e@),
    }
}

pub open spec fn tstmt_res(r: Result<TypedStatement, TypingError>) -> Result<TStmtV, TErrV> {
    match r {
        Ok(v) => Ok(v@),
        Err(e) => Err(e@),
    }
}

pub open spec fn tstmts_view(v: Seq<TypedStatement>) -> Seq<TStmtV> {
    v.map_values(|s: TypedStatement| s@)
}

pub open spec fn tstmts_res(r: Result<Vec<TypedStatement>, TypingError>) -> Result<Seq<TStmtV>, TErrV> {
    match r {
        Ok(v) => Ok(tstmts_view(v@)),
        Err(e) => Err(e@),
    }
}

pub open spec fn tblock_res(r: Result<TypedBlock, TypingError>) -> Result<TBlockV, TErrV> {
    match r {
        Ok(v) => Ok(v@),
        Err(e) => Err(e@),
    }
}

/// Typing results so far, `acc`, followed by the result `r` of typing the rest.
pub open spec fn prepend<T>(acc: Seq<T>, r: (Result<Seq<T>, TErrV>, ScopesV)) -> (Result<Seq<T>, TErrV>, ScopesV) {
    (
        match r.0 {
            Ok(ts) => Ok(acc + ts),
            Err(e) => Err(e),
        },
        r.1,
    )
}

pub proof fn lemma_prepend<T>(acc: Seq<T>, t0: T, r: (Result<Seq<T>, TErrV>, ScopesV))
    ensures
        prepend(
            acc,
            (
                match r.0 {
                    Ok(ts) => Ok(seq![t0] + ts),
                    Err(e) => Err(e),
                },
                r.1,
            ),
        ) == prepend(acc.push(t0), r),
{
    match r.0 {
        Ok(ts) => {
            assert(acc + (seq![t0] + ts) =~= acc.push(t0) + ts);
        },
        Err(_) => {},
    }
}

/// Checks scopes and typing rules, turning statements into typed statements.
pub struct Typer {
    scopes: Vec<Vec<(String, Type)>>,
    typed_ast: Vec<TypedStatement>,
}

fn text_of(s: &str) -> (r: String)
    ensures
        r@ == s@,
{
    String::from_str(s)
}

/// The newest binding of `name` in `sc`.
fn scope_lookup(sc: &Vec<(String, Type)>, name: &String) -> (r: Option<Type>)
    ensures
        r == scope_get(scope_view(sc@), name@),
{
    let ghost v = scope_view(sc@);
    let mut j = sc.len();
    proof {
        assert(v.subrange(0, j as int) =~= v);
    }
    while j > 0
        invariant
            j <= sc.len(),
            v == scope_view(sc@),
            scope_get(v, name@) == scope_get(v.subrange(0, j as int), name@),
        decreases j,
    {
        let ghost sub = v.subrange(0, j as int);
        proof {
            assert(sub.drop_last() =~= v.subrange(0, j - 1));
            assert(sub.last() == v[j - 1]);
        }
        if sc[j - 1].0 == *name {
            return Some(sc[j - 1].1.duplicate());
        }
        j = j - 1;
    }
    None
}

impl Typer {
    pub closed spec fn scopes_view(&self) -> ScopesV {
        self.scopes@.map_values(|sc: Vec<(String, Type)>| scope_view(sc@))
    }

    pub closed spec fn typed_view(&self) -> Seq<TStmtV> {
        tstmts_view(self.typed_ast@)
    }

    /// A typer with one empty scope and nothing typed yet.
    pub fn new() -> (r: Self)
        ensures
            r.scopes_view() == seq![ScopeV::empty()],
            r.typed_view() == Seq::<TStmtV>::empty(),
    {
        let mut scopes: Vec<Vec<(String, Type)>> = Vec::new();
        scopes.push(Vec::new());
        let r = Self { scopes, typed_ast: Vec::new() };
        proof {
            assert(scope_view(r.scopes@[0]@) =~= ScopeV::empty());
            assert(r.scopes_view() =~= seq![ScopeV::empty()]);
            assert(r.typed_view() =~= Seq::<TStmtV>::empty());
        }
        r
    }

    fn find_in_scopes(&self, name: &String) -> (r: Option<Type>)
        ensures
            r == find_in_scopes_spec(self.scopes_view(), name@),
    {
        let ghost v = self.scopes_view();
        let mut i = self.scopes.len();
        proof {
            assert(v.subrange(0, i as int) =~= v);
        }
        while i > 0
            invariant
                i <= self.scopes.len(),
                v == self.scopes_view(),
                find_in_scopes_spec(v, name@) == find_in_scopes_spec(v.subrange(0, i as int), name@),
            decreases i,
        {
            let ghost sub = v.subrange(0, i as int);
            proof {
                assert(sub.drop_last() =~= v.subrange(0, i - 1));
                assert(sub.last() == scope_view(self.scopes@[i - 1]@));
            }
            if let Some(t) = scope_lookup(&self.scopes[i - 1], name) {
                return Some(t);
            }
            i = i - 1;
        }
        None
    }

    /// The binding of `name` in the innermost scope alone.
    fn current_scope_lookup(&self, name: &String) -> (r: Option<Type>)
        ensures
            r == if self.scopes_view().len() == 0 {
                None
            } else {
                scope_get(self.scopes_view().last(), name@)
            },
    {
        if self.scopes.len() == 0 {
            return None;
        }
        scope_lookup(&self.scopes[self.scopes.len() - 1], name)
    }

    /// Binds `name` to `t` in the innermost scope.
    fn bind_current(&mut self, name: String, t: Type)
        ensures
            final(self).scopes_view() == bind(old(self).scopes_view(), name@, t),
            final(self).typed_view() == old(self).typed_view(),
    {
        let ghost v = self.scopes_view();
        match self.scopes.pop() {
            Some(mut last) => {
                let ghost lv = scope_view(last@);
                last.push((name, t));
                proof {
                    assert(scope_view(last@) =~= lv.push((name@, t)));
                }
                self.scopes.push(last);
                proof {
                    assert(self.scopes_view() =~= v.update(v.len() - 1, v.last().push((name@, t))));
                }
            },
            None => {
                proof {
                    assert(self.scopes_view() =~= v);
                }
            },
        }
    }

    /// Opens a scope holding a function's parameters.
    fn push_function(&mut self, args: &Vec<(Token, Type)>)
        ensures
            final(self).scopes_view() == old(self).scopes_view().push(
                params_scope(param_views(args@)),
            ),
            final(self).typed_view() == old(self).typed_view(),
    {
        let mut new_scope: Vec<(String, Type)> = Vec::new();
        let mut i: usize = 0;
        while i < args.len()
            invariant
                i <= args.len(),
                scope_view(new_scope@) =~= params_scope(param_views(args@)).subrange(0, i as int),
            decreases args.len() - i,
        {
            let ghost before = scope_view(new_scope@);
            new_scope.push((text_of(args[i].0.lexeme()), args[i].1.duplicate()));
            proof {
                assert(scope_view(new_scope@) =~= before.push((args@[i as int].0@.lexeme, args@[i as int].1)));
            }
            i = i + 1;
        }
        proof {
            assert(params_scope(param_views(args@)).subrange(0, args.len() as int) =~= params_scope(
                param_views(args@),
            ));
        }
        let ghost v = self.scopes_view();
        self.scopes.push(new_scope);
        proof {
            assert(self.scopes_view() =~= v.push(params_scope(param_views(args@))));
        }
    }

    fn pop_scope(&mut self)
        ensures
            final(self).scopes_view() == pop(old(self).scopes_view()),
            final(self).typed_view() == old(self).typed_view(),
    {
        let ghost v = self.scopes_view();
        if self.scopes.len() > 0 {
            self.scopes.pop();
            proof {
                assert(self.scopes_view() =~= v.drop_last());
            }
        }
    }

    fn type_expressions(&mut self, es: &Vec<Expression>) -> (r: Result<Vec<TypedExpression>, TypingError>)
        ensures
            type_exprs_spec(old(self).scopes_view(), exprs_view(es)).0 == texprs_res(r),
            r is Ok ==> type_exprs_spec(old(self).scopes_view(), exprs_view(es)).1 == final(self).scopes_view(),
            final(self).typed_view() == old(self).typed_view(),
        decreases es, 1int,
    {
        let ghost ev = exprs_view(es);
        let ghost sc0 = self.scopes_view();
        let mut out: Vec<TypedExpression> = Vec::new();
        let mut i: usize = 0;
        proof {
            assert forall|j: int| 0 <= j < es.len() implies decreases_to!(*es => #[trigger] es[j]) by {
                assert(decreases_to!(*es => es[j]));
            }
            assert(ev.subrange(0, ev.len() as int) =~= ev);
            assert(texprs_view(out@) + Seq::<TExprV>::empty() =~= Seq::<TExprV>::empty());
            assert(texprs_view(out@) =~= Seq::<TExprV>::empty());
            lemma_prepend_empty(type_exprs_spec(sc0, ev));
        }
        while i < es.len()
            invariant
                i <= es.len(),
                ev == exprs_view(es),
                ev.len() == es.len(),
                sc0 == old(self).scopes_view(),
                self.typed_view() == old(self).typed_view(),
                forall|j: int| 0 <= j < es.len() ==> decreases_to!(*es => #[trigger] es[j]),
                type_exprs_spec(sc0, ev) == prepend(
                    texprs_view(out@),
                    type_exprs_spec(self.scopes_view(), ev.subrange(i as int, ev.len() as int)),
                ),
            decreases es.len() - i,
        {
            let ghost sub = ev.subrange(i as int, ev.len() as int);
            proof {
                assert(sub[0] == es@[i as int]@);
                assert(sub.drop_first() =~= ev.subrange(i + 1, ev.len() as int));
            }
            let t = match self.type_expression(&es[i]) {
                Ok(v) => v,
                Err(e) => return Err(e),
            };
            proof {
                lemma_prepend(
                    texprs_view(out@),
                    t@,
                    type_exprs_spec(self.scopes_view(), ev.subrange(i + 1, ev.len() as int)),
                );
            }
            let ghost before = texprs_view(out@);
            out.push(t);
            proof {
                assert(texprs_view(out@) =~= before.push(t@));
            }
            i = i + 1;
        }
        proof {
            assert(ev.subrange(i as int, ev.len() as int) =~= Seq::<ExprV>::empty());
            assert(texprs_view(out@) + Seq::<TExprV>::empty() =~= texprs_view(out@));
        }
        Ok(out)
    }

    fn type_statements(&mut self, b: &Block) -> (r: Result<Vec<TypedStatement>, TypingError>)
        ensures
            type_stmts_spec(old(self).scopes_view(), block_view(b)).0 == tstmts_res(r),
            r is Ok ==> type_stmts_spec(old(self).scopes_view(), block_view(b)).1 == final(self).scopes_view(),
            final(self).typed_view() == old(self).typed_view(),
        decreases b, 0int,
    {
        let ghost bv = block_view(b);
        let ghost sc0 = self.scopes_view();
        let mut out: Vec<TypedStatement> = Vec::new();
        let mut i: usize = 0;
        proof {
            assert forall|j: int| 0 <= j < b.len() implies decreases_to!(*b => #[trigger] b[j]) by {
                assert(decreases_to!(*b => b[j]));
            }
            assert(bv.subrange(0, bv.len() as int) =~= bv);
            assert(tstmts_view(out@) =~= Seq::<TStmtV>::empty());
            lemma_prepend_empty(type_stmts_spec(sc0, bv));
        }
        while i < b.len()
            invariant
                i <= b.len(),
                bv == block_view(b),
                bv.len() == b.len(),
                sc0 == old(self).scopes_view(),
                self.typed_view() == old(self).typed_view(),
                forall|j: int| 0 <= j < b.len() ==> decreases_to!(*b => #[trigger] b[j]),
                type_stmts_spec(sc0, bv) == prepend(
                    tstmts_view(out@),
                    type_stmts_spec(self.scopes_view(), bv.subrange(i as int, bv.len() as int)),
                ),
            decreases b.len() - i,
        {
            let ghost sub = bv.subrange(i as int, bv.len() as int);
            proof {
                assert(sub[0] == b@[i as int]@);
                assert(sub.drop_first() =~= bv.subrange(i + 1, bv.len() as int));
            }
            let t = match self.type_statement(&b[i]) {
                Ok(v) => v,
                Err(e) => return Err(e),
            };
            proof {
                lemma_prepend(
                    tstmts_view(out@),
                    t@,
                    type_stmts_spec(self.scopes_view(), bv.subrange(i + 1, bv.len() as int)),
                );
            }
            let ghost before = tstmts_view(out@);
            out.push(t);
            proof {
                assert(tstmts_view(out@) =~= before.push(t@));
            }
            i = i + 1;
        }
        proof {
            assert(bv.subrange(i as int, bv.len() as int) =~= Seq::<StmtV>::empty());
            assert(tstmts_view(out@) + Seq::<TStmtV>::empty() =~= tstmts_view(out@));
        }
        Ok(out)
    }

    fn type_block(&mut self, block: &Block) -> (r: Result<TypedBlock, TypingError>)
        ensures
            type_block_spec(old(self).scopes_view(), block_view(block)).0 == tblock_res(r),
            r is Ok ==> type_block_spec(old(self).scopes_view(), block_view(block)).1 == final(self).scopes_view(),
            final(self).typed_view() == old(self).typed_view(),
        decreases block, 1int,
    {
        let body = match self.type_statements(block) {
            Ok(v) => v,
            Err(e) => return Err(e),
        };
        let type_ = if body.len() == 0 {
            Type::Unit
        } else {
            body[body.len() - 1].get_type()
        };
        let r = TypedBlock { body, type_ };
        proof {
            assert(r@.body =~= tstmts_view(r.body@));
        }
        Ok(r)
    }

    fn int_to_bool_demote(&mut self, condition: &Expression) -> (r: Result<TypedExpression, TypingError>)
        ensures
            match type_expr_spec(old(self).scopes_view(), condition@).0 {
                Ok(c) => r matches Ok(d) && d@ == demote(c),
                Err(e) => r matches Err(err) && err@ == e,
            },
            r is Ok ==> type_expr_spec(old(self).scopes_view(), condition@).1 == final(self).scopes_view(),
            final(self).typed_view() == old(self).typed_view(),
        decreases condition, 1int,
    {
        let c = match self.type_expression(condition) {
            Ok(v) => v,
            Err(e) => return Err(e),
        };
        match c {
            TypedExpression::Int(tok) => {
                let zero = Token::un_located(TokenKind::Int, "0");
                proof {
                    reveal_strlit("0");
                    assert(zero@.lexeme =~= seq!['0']);
                    assert(zero@ == zero_token());
                }
                let d = TypedExpression::BinaryOperation {
                    lhs: Box::new(TypedExpression::Int(tok)),
                    operator: BinaryOperator::GreaterThan,
                    rhs: Box::new(TypedExpression::Int(zero)),
                    type_: Type::Int,
                };
                proof {
                    reveal_with_fuel(TypedExpression::view, 2);
                }
                Ok(d)
            },
            other => {
                proof {
                    assert(!(other@ is Int));
                    assert(demote(other@) == other@);
                }
                Ok(other)
            },
        }
    }

    fn type_expression(&mut self, e: &Expression) -> (r: Result<TypedExpression, TypingError>)
        ensures
            type_expr_spec(old(self).scopes_view(), e@).0 == texpr_res(r),
            r is Ok ==> type_expr_spec(old(self).scopes_view(), e@).1 == final(self).scopes_view(),
            final(self).typed_view() == old(self).typed_view(),
        decreases e, 0int,
    {
        match e {
            Expression::If { condition, true_block, else_block } => {
                let c = match self.int_to_bool_demote(condition) {
                    Ok(v) => v,
                    Err(e) => return Err(e),
                };
                let ct = c.get_type();
                if !ct.same(&Type::Bool) {
                    return Err(TypingError::InvalidType(ct, Type::Bool));
                }
                let tb = match self.type_block(true_block) {
                    Ok(v) => v,
                    Err(e) => return Err(e),
                };
                match else_block {
                    None => Ok(
                        TypedExpression::If { condition: Box::new(c), true_block: tb, else_block: None },
                    ),
                    Some(b) => {
                        proof {
                            assert(decreases_to!(*e => e->If_else_block));
                        }
                        let eb = match self.type_block(b) {
                            Ok(v) => v,
                            Err(e) => return Err(e),
                        };
                        Ok(
                            TypedExpression::If {
                                condition: Box::new(c),
                                true_block: tb,
                                else_block: Some(eb),
                            },
                        )
                    },
                }
            },
            Expression::BinaryOperation { lhs, operator, rhs } => {
                let l = match self.type_expression(lhs) {
                    Ok(v) => v,
                    Err(e) => return Err(e),
                };
                let r = match self.type_expression(rhs) {
                    Ok(v) => v,
                    Err(e) => return Err(e),
                };
                let type_ = match operator {
                    BinaryOperator::Add => Type::Int,
                    _ => Type::Bool,
                };
                Ok(
                    TypedExpression::BinaryOperation {
                        lhs: Box::new(l),
                        operator: *operator,
                        rhs: Box::new(r),
                        type_,
                    },
                )
            },
            Expression::FunctionCall { name, arguments } => {
                let args = match self.type_expressions(arguments) {
                    Ok(v) => v,
                    Err(e) => return Err(e),
                };
                match self.find_in_scopes(&text_of(name.lexeme())) {
                    None => Err(TypingError::NameNotFound(name.clone_token())),
                    Some(t) => {
                        let r = TypedExpression::FunctionCall {
                            name: name.clone_token(),
                            arguments: args,
                            type_: t,
                        };
                        proof {
                            assert(r@->FunctionCall_arguments =~= texprs_view(args@));
                        }
                        Ok(r)
                    },
                }
            },
            Expression::UnaryOperation { operator, rhs } => {
                let r = match self.type_expression(rhs) {
                    Ok(v) => v,
                    Err(e) => return Err(e),
                };
                Ok(TypedExpression::UnaryOperation { operator: *operator, rhs: Box::new(r) })
            },
            Expression::Int(t) => Ok(TypedExpression::Int(t.clone_token())),
            Expression::Bool(b, t) => Ok(TypedExpression::Bool(*b, t.clone_token())),
            Expression::List(elements) => {
                let items = match self.type_expressions(elements) {
                    Ok(v) => v,
                    Err(e) => return Err(e),
                };
                let t = if items.len() == 0 {
                    Type::Unit
                } else {
                    items[0].get_type()
                };
                let r = TypedExpression::List(items, t);
                proof {
                    assert(r@->List_0 =~= texprs_view(items@));
                }
                Ok(r)
            },
            Expression::Name(t) => match self.find_in_scopes(&text_of(t.lexeme())) {
                None => Err(TypingError::NameNotFound(t.clone_token())),
                Some(ty) => Ok(TypedExpression::Name(t.clone_token(), ty)),
            },
        }
    }

    fn type_statement(&mut self, st: &Statement) -> (r: Result<TypedStatement, TypingError>)
        ensures
            type_stmt_spec(old(self).scopes_view(), st@).0 == tstmt_res(r),
            r is Ok ==> type_stmt_spec(old(self).scopes_view(), st@).1 == final(self).scopes_view(),
            final(self).typed_view() == old(self).typed_view(),
        decreases st, 0int,
    {
        match st {
            Statement::FunctionDefinitionStatement(def) => {
                proof {
                    assert(decreases_to!(*st => st->FunctionDefinitionStatement_0));
                }
                self.bind_current(text_of(def.name.lexeme()), def.type_.duplicate());
                self.push_function(&def.arg_list);
                let body = match self.type_block(&def.body) {
                    Ok(v) => v,
                    Err(e) => return Err(e),
                };
                self.pop_scope();
                let arg_list = clone_args(&def.arg_list);
                Ok(
                    TypedStatement::FunctionDefinitionStatement(
                        FunctionDefinition {
                            name: def.name.clone_token(),
                            type_: def.type_.duplicate(),
                            arg_list,
                            body,
                        },
                    ),
                )
            },
            Statement::VariableDeclaration { name, type_, value } => {
                self.bind_current(text_of(name.lexeme()), type_.duplicate());
                let v = match self.type_expression(value) {
                    Ok(v) => v,
                    Err(e) => return Err(e),
                };
                let vt = v.get_type();
                if !vt.same(type_) {
                    return Err(TypingError::ConflictingTypes(name.clone_token(), type_.duplicate(), vt));
                }
                Ok(
                    TypedStatement::VariableDeclaration {
                        name: name.clone_token(),
                        type_: type_.duplicate(),
                        value: v,
                    },
                )
            },
            Statement::Assignment { to, value } => {
                let v = match self.type_expression(value) {
                    Ok(v) => v,
                    Err(e) => return Err(e),
                };
                match self.current_scope_lookup(&text_of(to.lexeme())) {
                    None => Err(TypingError::NameNotFound(to.clone_token())),
                    Some(declared) => {
                        let vt = v.get_type();
                        if !declared.same(&vt) {
                            Err(TypingError::ConflictingTypes(to.clone_token(), declared, vt))
                        } else {
                            Ok(TypedStatement::Assignment { to: to.clone_token(), value: v })
                        }
                    },
                }
            },
            Statement::While { condition, body } => {
                let c = match self.type_expression(condition) {
                    Ok(v) => v,
                    Err(e) => return Err(e),
                };
                let b = match self.type_block(body) {
                    Ok(v) => v,
                    Err(e) => return Err(e),
                };
                Ok(TypedStatement::While { condition: c, body: b })
            },
            Statement::Return(e) => {
                let t = match self.type_expression(e) {
                    Ok(v) => v,
                    Err(e) => return Err(e),
                };
                Ok(TypedStatement::Return(t))
            },
            Statement::Expression(e) => {
                let t = match self.type_expression(e) {
                    Ok(v) => v,
                    Err(e) => return Err(e),
                };
                Ok(TypedStatement::Expression(t))
            },
        }
    }

    /// Types `on` in the current scopes, appending each typed statement as it
    /// goes; typing stops at the first error, keeping the statements before it.
    pub fn run_typer(&mut self, on: Vec<Statement>) -> (r: Result<(), TypingError>)
        ensures
            match type_stmts_spec(old(self).scopes_view(), block_view(&on)).0 {
                Ok(ts) => r is Ok && final(self).scopes_view() == type_stmts_spec(
                    old(self).scopes_view(),
                    block_view(&on),
                ).1,
                Err(e) => r matches Err(err) && err@ == e,
            },
            final(self).typed_view() == old(self).typed_view() + typed_prefix_spec(
                old(self).scopes_view(),
                block_view(&on),
            ),
    {
        let ghost bv = block_view(&on);
        let ghost sc0 = self.scopes_view();
        let ghost t0 = self.typed_view();
        let ghost mut acc = Seq::<TStmtV>::empty();
        let mut i: usize = 0;
        proof {
            assert(bv.subrange(0, bv.len() as int) =~= bv);
            lemma_prepend_empty(type_stmts_spec(sc0, bv));
            assert(t0 + acc =~= t0);
            assert(acc + typed_prefix_spec(sc0, bv) =~= typed_prefix_spec(sc0, bv));
        }
        while i < on.len()
            invariant
                i <= on.len(),
                bv == block_view(&on),
                bv.len() == on.len(),
                sc0 == old(self).scopes_view(),
                t0 == old(self).typed_view(),
                self.typed_view() == t0 + acc,
                type_stmts_spec(sc0, bv) == prepend(
                    acc,
                    type_stmts_spec(self.scopes_view(), bv.subrange(i as int, bv.len() as int)),
                ),
                typed_prefix_spec(sc0, bv) == acc + typed_prefix_spec(
                    self.scopes_view(),
                    bv.subrange(i as int, bv.len() as int),
                ),
            decreases on.len() - i,
        {
            let ghost sub = bv.subrange(i as int, bv.len() as int);
            proof {
                assert(sub[0] == on@[i as int]@);
                assert(sub.drop_first() =~= bv.subrange(i + 1, bv.len() as int));
            }
            let t = match self.type_statement(&on[i]) {
                Ok(v) => v,
                Err(e) => {
                    proof {
                        assert(acc + Seq::<TStmtV>::empty() =~= acc);
                    }
                    return Err(e);
                },
            };
            let ghost rest = typed_prefix_spec(self.scopes_view(), bv.subrange(i + 1, bv.len() as int));
            proof {
                lemma_prepend(
                    acc,
                    t@,
                    type_stmts_spec(self.scopes_view(), bv.subrange(i + 1, bv.len() as int)),
                );
                assert(acc + (seq![t@] + rest) =~= acc.push(t@) + rest);
            }
            let ghost before = self.typed_ast@;
            self.typed_ast.push(t);
            proof {
                assert(tstmts_view(self.typed_ast@) =~= tstmts_view(before).push(t@));
                assert(t0 + acc.push(t@) =~= (t0 + acc).push(t@));
                acc = acc.push(t@);
            }
            i = i + 1;
        }
        proof {
            assert(bv.subrange(i as int, bv.len() as int) =~= Seq::<StmtV>::empty());
            assert(acc + Seq::<TStmtV>::empty() =~= acc);
        }
        Ok(())
    }

    /// The statements typed so far.
    pub fn typed(&self) -> (r: &Vec<TypedStatement>)
        ensures
            tstmts_view(r@) == self.typed_view(),
    {
        &self.typed_ast
    }

    /// Types a whole program, starting from one empty scope.
    pub fn type_ast(ast: Vec<Statement>) -> (r: Result<Vec<TypedStatement>, TypingError>)
        ensures
            tstmts_res(r) == type_program_spec(block_view(&ast)),
    {
        let mut typer = Typer::new();
        proof {
            assert(typer.scopes_view() == seq![ScopeV::empty()]);
        }
        typer.type_statements(&ast)
    }
}

/// A copy of a parameter list.
fn clone_args(args: &Vec<(Token, Type)>) -> (r: Vec<(Token, Type)>)
    ensures
        arg_views(r@) == param_views(args@),
{
    let mut out: Vec<(Token, Type)> = Vec::new();
    let mut i: usize = 0;
    while i < args.len()
        invariant
            i <= args.len(),
            arg_views(out@) =~= param_views(args@).subrange(0, i as int),
        decreases args.len() - i,
    {
        let ghost before = arg_views(out@);
        let item = (args[i].0.clone_token(), args[i].1.duplicate());
        out.push(item);
        proof {
            assert(arg_views(out@) =~= before.push((args@[i as int].0@, args@[i as int].1)));
        }
        i = i + 1;
    }
    proof {
        assert(param_views(args@).subrange(0, args.len() as int) =~= param_views(args@));
    }
    out
}

pub proof fn lemma_prepend_empty<T>(r: (Result<Seq<T>, TErrV>, ScopesV))
    ensures
        prepend(Seq::<T>::empty(), r) == r,
{
    match r.0 {
        Ok(ts) => {
            assert(Seq::<T>::empty() + ts =~= ts);
        },
        Err(_) => {},
    }
}

} // verus!
