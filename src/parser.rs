use crate::ast::{
    block_view, exprs_view, param_views, BinaryOperator, Block, ExprV, Expression,
    FunctionDefinition, Statement, StmtV, UnaryOperator,
};
use crate::lexer::{lex_spec, Lexer};
use crate::parser_spec::{
    advanced, binary, eat_semicolon_spec, invalid, parse_add_spec, parse_atom_spec,
    parse_block_spec, parse_comparison_spec, parse_equality_spec, parse_expr_spec,
    parse_function_spec, parse_list_spec, parse_logical_negation_spec, parse_logical_spec,
    parse_param_spec, parse_params_spec, parse_program_spec, parse_statement_spec,
    parse_statements_spec, parse_type_spec, parse_unary_sub_spec, parse_var_declaration_spec,
    add_tail_spec, comparison_tail_spec, equality_tail_spec, logical_tail_spec, then_semicolon,
    unexpected, PErr, PRes, ParserErrorKind,
};
use crate::token::{Token, TokenKind, TokenView};
use crate::token_holder::{kind_at, tok_at, TokenHolder};
use crate::typed_ast::Type;
use vstd::prelude::*;
use vstd::string::*;

verus! {

/// A syntax error: what went wrong, the token where it did, and a note on what was expected.
#[derive(Debug)]
pub struct ParserError {
    kind: ParserErrorKind,
    offending_token: Token,
    message: Option<String>,
}

impl View for ParserError {
    type V = PErr;

    closed spec fn view(&self) -> PErr {
        (self.kind, self.offending_token@)
    }
}

impl ParserError {
    /// The error carries a note on what was expected.
    pub closed spec fn noted(&self) -> bool {
        self.message is Some
    }

    pub fn new(kind: ParserErrorKind, offending_token: Token, message: Option<String>) -> (r: Self)
        ensures
            r@ == (kind, offending_token@),
            r.noted() == (message is Some),
    {
        Self { kind, offending_token, message }
    }

    pub fn kind(&self) -> (r: ParserErrorKind)
        ensures
            r == self@.0,
    {
        self.kind
    }

    pub fn offending_token(&self) -> (r: &Token)
        ensures
            r@ == self@.1,
    {
        &self.offending_token
    }

    pub fn message(&self) -> (r: &Option<String>)
        ensures
            (r is Some) == self.noted(),
    {
        &self.message
    }
}

pub open spec fn expr_res(r: Result<Expression, ParserError>, q: int) -> PRes<ExprV> {
    match r {
        Ok(e) => Ok((e@, q)),
        Err(err) => Err(err@),
    }
}

pub open spec fn stmt_res(r: Result<Statement, ParserError>, q: int) -> PRes<StmtV> {
    match r {
        Ok(s) => Ok((s@, q)),
        Err(err) => Err(err@),
    }
}

pub open spec fn block_res(r: Result<Block, ParserError>, q: int) -> PRes<Seq<StmtV>> {
    match r {
        Ok(b) => Ok((block_view(&b), q)),
        Err(err) => Err(err@),
    }
}

pub open spec fn list_res(r: Result<Vec<Expression>, ParserError>, q: int) -> PRes<Seq<ExprV>> {
    match r {
        Ok(v) => Ok((exprs_view(&v), q)),
        Err(err) => Err(err@),
    }
}

pub open spec fn param_res(r: Result<(Token, Type), ParserError>, q: int) -> PRes<(TokenView, Type)> {
    match r {
        Ok(a) => Ok(((a.0@, a.1), q)),
        Err(err) => Err(err@),
    }
}

pub open spec fn params_res(r: Result<Vec<(Token, Type)>, ParserError>, q: int) -> PRes<
    Seq<(TokenView, Type)>,
> {
    match r {
        Ok(v) => Ok((param_views(v@), q)),
        Err(err) => Err(err@),
    }
}

/// The outcome of parsing a whole program, mathematically.
pub open spec fn program_res(r: Result<Vec<Statement>, ParserError>) -> Result<Seq<StmtV>, PErr> {
    match r {
        Ok(v) => Ok(block_view(&v)),
        Err(err) => Err(err@),
    }
}

pub open spec fn type_res(r: Result<Type, ParserError>, q: int) -> PRes<Type> {
    match r {
        Ok(t) => Ok((t, q)),
        Err(err) => Err(err@),
    }
}

/// Parses a token stream into statements by recursive descent.
pub struct Parser {
    tokens: TokenHolder,
}

impl Parser {
    pub closed spec fn tokens_view(&self) -> Seq<TokenView> {
        self.tokens.tokens_view()
    }

    pub closed spec fn position(&self) -> int {
        self.tokens.position()
    }

    pub closed spec fn wf(&self) -> bool {
        self.tokens.wf()
    }

    /// A parser over the tokens of `text`, at the first token.
    pub fn new(text: &str) -> (r: Self)
        requires
            text@.len() <= isize::MAX,
        ensures
            r.wf(),
            r.tokens_view() == lex_spec(text@),
            r.position() == 0,
    {
        let tokens = Lexer::new(text).lex();
        Self { tokens: TokenHolder::new(tokens) }
    }

    fn unexpected_token(&self, expected: &str) -> (r: ParserError)
        requires
            self.wf(),
        ensures
            r@ == unexpected(self.tokens_view(), self.position()),
            r.noted(),
    {
        ParserError::new(
            ParserErrorKind::UnexpectedToken,
            self.tokens.current(),
            Some(String::from_str(expected)),
        )
    }

    fn unexpected_token_alternates(&self, expected: &str) -> (r: ParserError)
        requires
            self.wf(),
        ensures
            r@ == unexpected(self.tokens_view(), self.position()),
            r.noted(),
    {
        let mut message = String::from_str("Expected one of: ");
        message.append(expected);
        ParserError::new(ParserErrorKind::UnexpectedToken, self.tokens.current(), Some(message))
    }

    fn invalid_name(&self, token: Token, context: &str) -> (r: ParserError)
        ensures
            r@ == (ParserErrorKind::InvalidName, token@),
            r.noted(),
    {
        ParserError::new(ParserErrorKind::InvalidName, token, Some(String::from_str(context)))
    }

    fn parse_type(&mut self) -> (r: Result<Type, ParserError>)
        requires
            old(self).wf(),
        ensures
            final(self).wf(),
            final(self).tokens_view() == old(self).tokens_view(),
            parse_type_spec(old(self).tokens_view(), old(self).position()) == type_res(
                r,
                final(self).position(),
            ),
            r matches Err(e) ==> e.noted(),
            r is Ok ==> advanced(
                old(self).tokens_view(),
                old(self).position(),
                final(self).position(),
            ),
        decreases old(self).tokens_view().len() - old(self).position(), 1int,
    {
        if self.tokens.t_match(TokenKind::IntType).is_some() {
            return Ok(Type::Int);
        }
        if self.tokens.t_match(TokenKind::BoolType).is_some() {
            return Ok(Type::Bool);
        }
        if self.tokens.t_match(TokenKind::ListType).is_some() {
            return match self.parse_type() {
                Ok(inner) => Ok(Type::List(Box::new(inner))),
                Err(e) => Err(e),
            };
        }
        Err(self.unexpected_token_alternates("IntType, BoolType, ListType"))
    }

    fn parse_atom(&mut self) -> (r: Result<Expression, ParserError>)
        requires
            old(self).wf(),
        ensures
            final(self).wf(),
            final(self).tokens_view() == old(self).tokens_view(),
            parse_atom_spec(old(self).tokens_view(), old(self).position()) == expr_res(
                r,
                final(self).position(),
            ),
            r matches Err(e) ==> e.noted(),
            r is Ok ==> advanced(
                old(self).tokens_view(),
                old(self).position(),
                final(self).position(),
            ),
        decreases old(self).tokens_view().len() - old(self).position(), 2int,
    {
        let ghost t = self.tokens_view();
        let ghost p = self.position();
        let token = self.tokens.next();
        let kind = token.kind();
        match kind {
            TokenKind::LParen => {
                let inside = match self.parse_expr() {
                    Ok(v) => v,
                    Err(e) => return Err(e),
                };
                if self.tokens.t_match(TokenKind::RParen).is_none() {
                    return Err(self.unexpected_token("Expected a closing parenthesis."));
                }
                Ok(inside)
            },
            TokenKind::LBracket => {
                let items = match self.parse_list(TokenKind::RBracket) {
                    Ok(v) => v,
                    Err(e) => return Err(e),
                };
                Ok(Expression::List(items))
            },
            TokenKind::Int => Ok(Expression::Int(token)),
            TokenKind::True => Ok(Expression::Bool(true, token)),
            TokenKind::False => Ok(Expression::Bool(false, token)),
            TokenKind::Name => {
                if self.tokens.t_match(TokenKind::LParen).is_some() {
                    let arguments = match self.parse_list(TokenKind::RParen) {
                        Ok(v) => v,
                        Err(e) => return Err(e),
                    };
                    return Ok(Expression::FunctionCall { name: token, arguments });
                }
                Ok(Expression::Name(token))
            },
            TokenKind::If => {
                let condition = match self.parse_expr() {
                    Ok(v) => v,
                    Err(e) => return Err(e),
                };
                let true_block = match self.parse_block() {
                    Ok(v) => v,
                    Err(e) => return Err(e),
                };
                if self.tokens.t_match(TokenKind::Else).is_none() {
                    return Ok(
                        Expression::If { condition: Box::new(condition), true_block, else_block: None },
                    );
                }
                if self.tokens.expect(TokenKind::If).is_some() {
                    let nested = match self.parse_atom() {
                        Ok(v) => v,
                        Err(e) => return Err(e),
                    };
                    let else_block = vec![Statement::Expression(nested)];
                    proof {
                        assert(block_view(&else_block) =~= seq![StmtV::Expression(nested@)]);
                    }
                    Ok(
                        Expression::If {
                            condition: Box::new(condition),
                            true_block,
                            else_block: Some(else_block),
                        },
                    )
                } else {
                    let else_block = match self.parse_block() {
                        Ok(v) => v,
                        Err(e) => return Err(e),
                    };
                    Ok(
                        Expression::If {
                            condition: Box::new(condition),
                            true_block,
                            else_block: Some(else_block),
                        },
                    )
                }
            },
            _ => Err(
                ParserError::new(
                    ParserErrorKind::UnexpectedToken,
                    token,
                    Some(String::from_str("Expected the start of an expression.")),
                ),
            ),
        }
    }

    fn parse_unary_sub(&mut self) -> (r: Result<Expression, ParserError>)
        requires
            old(self).wf(),
        ensures
            final(self).wf(),
            final(self).tokens_view() == old(self).tokens_view(),
            parse_unary_sub_spec(old(self).tokens_view(), old(self).position()) == expr_res(
                r,
                final(self).position(),
            ),
            r matches Err(e) ==> e.noted(),
            r is Ok ==> advanced(
                old(self).tokens_view(),
                old(self).position(),
                final(self).position(),
            ),
        decreases old(self).tokens_view().len() - old(self).position(), 3int,
    {
        if self.tokens.t_match(TokenKind::Minus).is_some() {
            let rhs = match self.parse_atom() {
                Ok(v) => v,
                Err(e) => return Err(e),
            };
            return Ok(Expression::UnaryOperation { operator: UnaryOperator::Sub, rhs: Box::new(rhs) });
        }
        self.parse_atom()
    }

    fn parse_add(&mut self) -> (r: Result<Expression, ParserError>)
        requires
            old(self).wf(),
        ensures
            final(self).wf(),
            final(self).tokens_view() == old(self).tokens_view(),
            parse_add_spec(old(self).tokens_view(), old(self).position()) == expr_res(
                r,
                final(self).position(),
            ),
            r matches Err(e) ==> e.noted(),
            r is Ok ==> advanced(
                old(self).tokens_view(),
                old(self).position(),
                final(self).position(),
            ),
        decreases old(self).tokens_view().len() - old(self).position(), 5int,
    {
        let ghost t = self.tokens_view();
        let ghost p = self.position();
        let mut lhs = match self.parse_unary_sub() {
            Ok(v) => v,
            Err(e) => return Err(e),
        };
        while self.tokens.expect(TokenKind::Plus).is_some()
            invariant
                self.wf(),
                self.tokens_view() == t,
                t == old(self).tokens_view(),
                p == old(self).position(),
                advanced(t, p, self.position()),
                parse_add_spec(t, p) == add_tail_spec(t, lhs@, self.position()),
            decreases t.len() - self.position(),
        {
            self.tokens.t_match(TokenKind::Plus);
            let operator = BinaryOperator::Add;
            let rhs = match self.parse_unary_sub() {
                Ok(v) => v,
                Err(e) => return Err(e),
            };
            lhs = Expression::BinaryOperation {
                lhs: Box::new(lhs),
                operator,
                rhs: Box::new(rhs),
            };
        }
        Ok(lhs)
    }

    fn parse_comparison(&mut self) -> (r: Result<Expression, ParserError>)
        requires
            old(self).wf(),
        ensures
            final(self).wf(),
            final(self).tokens_view() == old(self).tokens_view(),
            parse_comparison_spec(old(self).tokens_view(), old(self).position()) == expr_res(
                r,
                final(self).position(),
            ),
            r matches Err(e) ==> e.noted(),
            r is Ok ==> advanced(
                old(self).tokens_view(),
                old(self).position(),
                final(self).position(),
            ),
        decreases old(self).tokens_view().len() - old(self).position(), 7int,
    {
        let ghost t = self.tokens_view();
        let ghost p = self.position();
        let mut lhs = match self.parse_add() {
            Ok(v) => v,
            Err(e) => return Err(e),
        };
        while self.tokens.expect(TokenKind::RAngleBracket).is_some()
            invariant
                self.wf(),
                self.tokens_view() == t,
                t == old(self).tokens_view(),
                p == old(self).position(),
                advanced(t, p, self.position()),
                parse_comparison_spec(t, p) == comparison_tail_spec(t, lhs@, self.position()),
            decreases t.len() - self.position(),
        {
            self.tokens.t_match(TokenKind::RAngleBracket);
            let operator = BinaryOperator::GreaterThan;
            let rhs = match self.parse_add() {
                Ok(v) => v,
                Err(e) => return Err(e),
            };
            lhs = Expression::BinaryOperation {
                lhs: Box::new(lhs),
                operator,
                rhs: Box::new(rhs),
            };
        }
        Ok(lhs)
    }

    fn parse_equality(&mut self) -> (r: Result<Expression, ParserError>)
        requires
            old(self).wf(),
        ensures
            final(self).wf(),
            final(self).tokens_view() == old(self).tokens_view(),
            parse_equality_spec(old(self).tokens_view(), old(self).position()) == expr_res(
                r,
                final(self).position(),
            ),
            r matches Err(e) ==> e.noted(),
            r is Ok ==> advanced(
                old(self).tokens_view(),
                old(self).position(),
                final(self).position(),
            ),
        decreases old(self).tokens_view().len() - old(self).position(), 9int,
    {
        let ghost t = self.tokens_view();
        let ghost p = self.position();
        let mut lhs = match self.parse_comparison() {
            Ok(v) => v,
            Err(e) => return Err(e),
        };
        while self.tokens.expect(TokenKind::EqualsEquals).is_some()
            invariant
                self.wf(),
                self.tokens_view() == t,
                t == old(self).tokens_view(),
                p == old(self).position(),
                advanced(t, p, self.position()),
                parse_equality_spec(t, p) == equality_tail_spec(t, lhs@, self.position()),
            decreases t.len() - self.position(),
        {
            self.tokens.t_match(TokenKind::EqualsEquals);
            let operator = BinaryOperator::Equals;
            let rhs = match self.parse_comparison() {
                Ok(v) => v,
                Err(e) => return Err(e),
            };
            lhs = Expression::BinaryOperation {
                lhs: Box::new(lhs),
                operator,
                rhs: Box::new(rhs),
            };
        }
        Ok(lhs)
    }

    fn parse_logical_negation(&mut self) -> (r: Result<Expression, ParserError>)
        requires
            old(self).wf(),
        ensures
            final(self).wf(),
            final(self).tokens_view() == old(self).tokens_view(),
            parse_logical_negation_spec(old(self).tokens_view(), old(self).position()) == expr_res(
                r,
                final(self).position(),
            ),
            r matches Err(e) ==> e.noted(),
            r is Ok ==> advanced(
                old(self).tokens_view(),
                old(self).position(),
                final(self).position(),
            ),
        decreases old(self).tokens_view().len() - old(self).position(), 10int,
    {
        if self.tokens.t_match(TokenKind::Bang).is_some() {
            let rhs = match self.parse_equality() {
                Ok(v) => v,
                Err(e) => return Err(e),
            };
            return Ok(Expression::UnaryOperation { operator: UnaryOperator::Not, rhs: Box::new(rhs) });
        }
        self.parse_equality()
    }

    fn parse_logical_binary_operations(&mut self) -> (r: Result<Expression, ParserError>)
        requires
            old(self).wf(),
        ensures
            final(self).wf(),
            final(self).tokens_view() == old(self).tokens_view(),
            parse_logical_spec(old(self).tokens_view(), old(self).position()) == expr_res(
                r,
                final(self).position(),
            ),
            r matches Err(e) ==> e.noted(),
            r is Ok ==> advanced(
                old(self).tokens_view(),
                old(self).position(),
                final(self).position(),
            ),
        decreases old(self).tokens_view().len() - old(self).position(), 12int,
    {
        let ghost t = self.tokens_view();
        let ghost p = self.position();
        let mut lhs = match self.parse_logical_negation() {
            Ok(v) => v,
            Err(e) => return Err(e),
        };
        while self.tokens.expect(TokenKind::PipePipe).is_some() || self.tokens.expect(TokenKind::AndAnd).is_some()
            invariant
                self.wf(),
                self.tokens_view() == t,
                t == old(self).tokens_view(),
                p == old(self).position(),
                advanced(t, p, self.position()),
                parse_logical_spec(t, p) == logical_tail_spec(t, lhs@, self.position()),
            decreases t.len() - self.position(),
        {
            let operator = if self.tokens.t_match(TokenKind::PipePipe).is_some() {
                BinaryOperator::Or
            } else {
                self.tokens.t_match(TokenKind::AndAnd);
                BinaryOperator::And
            };
            let rhs = match self.parse_logical_negation() {
                Ok(v) => v,
                Err(e) => return Err(e),
            };
            lhs = Expression::BinaryOperation {
                lhs: Box::new(lhs),
                operator,
                rhs: Box::new(rhs),
            };
        }
        Ok(lhs)
    }

    fn parse_expr(&mut self) -> (r: Result<Expression, ParserError>)
        requires
            old(self).wf(),
        ensures
            final(self).wf(),
            final(self).tokens_view() == old(self).tokens_view(),
            parse_expr_spec(old(self).tokens_view(), old(self).position()) == expr_res(
                r,
                final(self).position(),
            ),
            r matches Err(e) ==> e.noted(),
            r is Ok ==> advanced(
                old(self).tokens_view(),
                old(self).position(),
                final(self).position(),
            ),
        decreases old(self).tokens_view().len() - old(self).position(), 13int,
    {
        self.parse_logical_binary_operations()
    }

    #[verifier::rlimit(50)]
    fn parse_list(&mut self, ending: TokenKind) -> (r: Result<Vec<Expression>, ParserError>)
        requires
            old(self).wf(),
            ending != TokenKind::EOI,
        ensures
            final(self).wf(),
            final(self).tokens_view() == old(self).tokens_view(),
            parse_list_spec(old(self).tokens_view(), old(self).position(), ending, seq![]) == list_res(
                r,
                final(self).position(),
            ),
            r matches Err(e) ==> e.noted(),
            r is Ok ==> advanced(
                old(self).tokens_view(),
                old(self).position(),
                final(self).position(),
            ),
        decreases old(self).tokens_view().len() - old(self).position(), 14int,
    {
        let ghost t = self.tokens_view();
        let ghost p = self.position();
        let mut insides: Vec<Expression> = Vec::new();
        proof {
            assert(exprs_view(&insides) =~= Seq::<ExprV>::empty());
        }
        loop
            invariant
                self.wf(),
                self.tokens_view() == t,
                t == old(self).tokens_view(),
                p == old(self).position(),
                ending != TokenKind::EOI,
                p <= self.position() <= t.len(),
                parse_list_spec(t, p, ending, seq![]) == parse_list_spec(
                    t,
                    self.position(),
                    ending,
                    exprs_view(&insides),
                ),
            decreases t.len() - self.position(),
        {
            if self.tokens.t_match(ending).is_some() {
                return Ok(insides);
            }
            let item = match self.parse_expr() {
                Ok(v) => v,
                Err(e) => return Err(e),
            };
            if self.tokens.t_match(TokenKind::Comma).is_none() && self.tokens.expect(ending).is_none() {
                return Err(self.unexpected_token("Expected a comma or the end of the list."));
            }
            let ghost before = exprs_view(&insides);
            insides.push(item);
            proof {
                assert(exprs_view(&insides) =~= before.push(item@));
            }
        }
    }

    fn eat_semicolon(&mut self) -> (r: Result<(), ParserError>)
        requires
            old(self).wf(),
        ensures
            final(self).wf(),
            final(self).tokens_view() == old(self).tokens_view(),
            match eat_semicolon_spec(old(self).tokens_view(), old(self).position()) {
                Ok(q) => r is Ok && final(self).position() == q,
                Err(e) => r matches Err(err) && err@ == e && final(self).position() == old(
                    self,
                ).position(),
            },
            r matches Err(e) ==> e.noted(),
    {
        let is_end_of_block = self.tokens.expect(TokenKind::RCurlyBrace).is_some();
        let is_semicolon = self.tokens.t_match(TokenKind::Semicolon).is_some();
        if !(is_semicolon || is_end_of_block) {
            return Err(self.unexpected_token("Expected a semicolon or the end of the block."));
        }
        Ok(())
    }

    fn parse_var_declaration(&mut self) -> (r: Result<Statement, ParserError>)
        requires
            old(self).wf(),
        ensures
            final(self).wf(),
            final(self).tokens_view() == old(self).tokens_view(),
            parse_var_declaration_spec(old(self).tokens_view(), old(self).position()) == stmt_res(
                r,
                final(self).position(),
            ),
            r matches Err(e) ==> e.noted(),
            r is Ok ==> advanced(
                old(self).tokens_view(),
                old(self).position(),
                final(self).position(),
            ),
        decreases old(self).tokens_view().len() - old(self).position(), 3int,
    {
        let first = self.tokens.current();
        let name = match self.parse_atom() {
            Ok(v) => v,
            Err(e) => return Err(e),
        };
        let name = match name {
            Expression::Name(t) => t,
            _ => {
                return Err(self.invalid_name(first, "Expected a name to start a variable declaration."));
            },
        };
        if self.tokens.t_match(TokenKind::Colon).is_none() {
            return Err(self.unexpected_token("Expected a colon in a variable declaration."));
        }
        let type_ = match self.parse_type() {
            Ok(v) => v,
            Err(e) => return Err(e),
        };
        if self.tokens.t_match(TokenKind::Equals).is_none() {
            return Err(self.unexpected_token("Expected an equals sign in a variable declaration."));
        }
        let value = match self.parse_expr() {
            Ok(v) => v,
            Err(e) => return Err(e),
        };
        Ok(Statement::VariableDeclaration { name, type_, value })
    }

    fn parse_param(&mut self) -> (r: Result<(Token, Type), ParserError>)
        requires
            old(self).wf(),
        ensures
            final(self).wf(),
            final(self).tokens_view() == old(self).tokens_view(),
            parse_param_spec(old(self).tokens_view(), old(self).position()) == param_res(
                r,
                final(self).position(),
            ),
            r matches Err(e) ==> e.noted(),
            r is Ok ==> advanced(
                old(self).tokens_view(),
                old(self).position(),
                final(self).position(),
            ),
        decreases old(self).tokens_view().len() - old(self).position(), 3int,
    {
        let first = self.tokens.current();
        let name = match self.parse_atom() {
            Ok(v) => v,
            Err(e) => return Err(e),
        };
        let name = match name {
            Expression::Name(t) => t,
            _ => {
                return Err(self.invalid_name(first, "Expected a name for a function parameter."));
            },
        };
        if self.tokens.t_match(TokenKind::Colon).is_none() {
            return Err(self.unexpected_token("Expected a colon after a parameter name."));
        }
        let type_ = match self.parse_type() {
            Ok(v) => v,
            Err(e) => return Err(e),
        };
        Ok((name, type_))
    }

    fn parse_params(&mut self) -> (r: Result<Vec<(Token, Type)>, ParserError>)
        requires
            old(self).wf(),
        ensures
            final(self).wf(),
            final(self).tokens_view() == old(self).tokens_view(),
            parse_params_spec(old(self).tokens_view(), old(self).position(), seq![]) == params_res(
                r,
                final(self).position(),
            ),
            r matches Err(e) ==> e.noted(),
            r is Ok ==> advanced(
                old(self).tokens_view(),
                old(self).position(),
                final(self).position(),
            ),
        decreases old(self).tokens_view().len() - old(self).position(), 14int,
    {
        let ghost t = self.tokens_view();
        let ghost p = self.position();
        let mut params: Vec<(Token, Type)> = Vec::new();
        proof {
            assert(param_views(params@) =~= Seq::<(TokenView, Type)>::empty());
        }
        loop
            invariant
                self.wf(),
                self.tokens_view() == t,
                t == old(self).tokens_view(),
                p == old(self).position(),
                p <= self.position() <= t.len(),
                parse_params_spec(t, p, seq![]) == parse_params_spec(
                    t,
                    self.position(),
                    param_views(params@),
                ),
            decreases t.len() - self.position(),
        {
            if self.tokens.t_match(TokenKind::RParen).is_some() {
                return Ok(params);
            }
            let item = match self.parse_param() {
                Ok(v) => v,
                Err(e) => return Err(e),
            };
            if self.tokens.t_match(TokenKind::Comma).is_none() && self.tokens.expect(
                TokenKind::RParen,
            ).is_none() {
                return Err(self.unexpected_token("Expected a comma or the end of the parameters."));
            }
            let ghost before = param_views(params@);
            let ghost item_view = (item.0@, item.1);
            params.push(item);
            proof {
                assert(param_views(params@) =~= before.push(item_view));
            }
        }
    }

    fn parse_function(&mut self) -> (r: Result<Statement, ParserError>)
        requires
            old(self).wf(),
        ensures
            final(self).wf(),
            final(self).tokens_view() == old(self).tokens_view(),
            parse_function_spec(old(self).tokens_view(), old(self).position()) == stmt_res(
                r,
                final(self).position(),
            ),
            r matches Err(e) ==> e.noted(),
            r is Ok ==> advanced(
                old(self).tokens_view(),
                old(self).position(),
                final(self).position(),
            ),
        decreases old(self).tokens_view().len() - old(self).position(), 15int,
    {
        let name = match self.tokens.t_match(TokenKind::Name) {
            Some(n) => n,
            None => {
                return Err(self.invalid_name(self.tokens.current(), "Invalid name for a function."));
            },
        };
        if self.tokens.t_match(TokenKind::LParen).is_none() {
            return Err(self.unexpected_token("Expected a ( after a function's name."));
        }
        let arg_list = match self.parse_params() {
            Ok(v) => v,
            Err(e) => return Err(e),
        };
        if self.tokens.t_match(TokenKind::Arrow).is_none() {
            return Err(self.unexpected_token("Expected -> before a function's return type."));
        }
        let type_ = match self.parse_type() {
            Ok(v) => v,
            Err(e) => return Err(e),
        };
        let body = match self.parse_block() {
            Ok(v) => v,
            Err(e) => return Err(e),
        };
        Ok(Statement::FunctionDefinitionStatement(FunctionDefinition { name, type_, arg_list, body }))
    }

    fn parse_statement(&mut self) -> (r: Result<Statement, ParserError>)
        requires
            old(self).wf(),
        ensures
            final(self).wf(),
            final(self).tokens_view() == old(self).tokens_view(),
            parse_statement_spec(old(self).tokens_view(), old(self).position()) == stmt_res(
                r,
                final(self).position(),
            ),
            r matches Err(e) ==> e.noted(),
            r is Ok ==> advanced(
                old(self).tokens_view(),
                old(self).position(),
                final(self).position(),
            ),
        decreases old(self).tokens_view().len() - old(self).position(), 16int,
    {
        let ghost t = self.tokens_view();
        let ghost p = self.position();
        if self.tokens.t_match(TokenKind::Let).is_some() {
            let declaration = match self.parse_var_declaration() {
                Ok(v) => v,
                Err(e) => return Err(e),
            };
            if let Err(e) = self.eat_semicolon() {
                return Err(e);
            }
            return Ok(declaration);
        }
        if self.tokens.t_match(TokenKind::While).is_some() {
            let condition = match self.parse_expr() {
                Ok(v) => v,
                Err(e) => return Err(e),
            };
            let body = match self.parse_block() {
                Ok(v) => v,
                Err(e) => return Err(e),
            };
            self.tokens.t_match(TokenKind::Semicolon);
            return Ok(Statement::While { condition, body });
        }
        if self.tokens.t_match(TokenKind::Fn).is_some() {
            return self.parse_function();
        }
        if self.tokens.t_match(TokenKind::Return).is_some() {
            let value = match self.parse_expr() {
                Ok(v) => v,
                Err(e) => return Err(e),
            };
            if let Err(e) = self.eat_semicolon() {
                return Err(e);
            }
            return Ok(Statement::Return(value));
        }
        let expr = match self.parse_expr() {
            Ok(v) => v,
            Err(e) => return Err(e),
        };
        match expr {
            Expression::Name(to) => {
                if self.tokens.t_match(TokenKind::Equals).is_some() {
                    let value = match self.parse_expr() {
                        Ok(v) => v,
                        Err(e) => return Err(e),
                    };
                    if let Err(e) = self.eat_semicolon() {
                        return Err(e);
                    }
                    return Ok(Statement::Assignment { to, value });
                }
                if let Err(e) = self.eat_semicolon() {
                    return Err(e);
                }
                Ok(Statement::Expression(Expression::Name(to)))
            },
            Expression::If { condition, true_block, else_block } => {
                self.tokens.t_match(TokenKind::Semicolon);
                Ok(Statement::Expression(Expression::If { condition, true_block, else_block }))
            },
            other => {
                if let Err(e) = self.eat_semicolon() {
                    return Err(e);
                }
                Ok(Statement::Expression(other))
            },
        }
    }

    fn parse_block(&mut self) -> (r: Result<Block, ParserError>)
        requires
            old(self).wf(),
        ensures
            final(self).wf(),
            final(self).tokens_view() == old(self).tokens_view(),
            parse_block_spec(old(self).tokens_view(), old(self).position()) == block_res(
                r,
                final(self).position(),
            ),
            r matches Err(e) ==> e.noted(),
            r is Ok ==> advanced(
                old(self).tokens_view(),
                old(self).position(),
                final(self).position(),
            ),
        decreases old(self).tokens_view().len() - old(self).position(), 18int,
    {
        let ghost t = self.tokens_view();
        let ghost p = self.position();
        if self.tokens.t_match(TokenKind::LCurlyBrace).is_none() {
            return Err(self.unexpected_token("Blocks must start with a {."));
        }
        let mut block: Vec<Statement> = Vec::new();
        proof {
            assert(block_view(&block) =~= Seq::<StmtV>::empty());
        }
        while self.tokens.expect(TokenKind::RCurlyBrace).is_none()
            invariant
                self.wf(),
                self.tokens_view() == t,
                t == old(self).tokens_view(),
                p == old(self).position(),
                p < self.position() <= t.len(),
                parse_block_spec(t, p) == parse_statements_spec(t, self.position(), block_view(&block)),
            decreases t.len() - self.position(),
        {
            let statement = match self.parse_statement() {
                Ok(v) => v,
                Err(e) => return Err(e),
            };
            let ghost before = block_view(&block);
            block.push(statement);
            proof {
                assert(block_view(&block) =~= before.push(statement@));
            }
        }
        self.tokens.t_match(TokenKind::RCurlyBrace);
        Ok(block)
    }

    fn parse_program(&mut self) -> (r: Result<Vec<Statement>, ParserError>)
        requires
            old(self).wf(),
        ensures
            program_res(r) == parse_program_spec(old(self).tokens_view(), old(self).position(), seq![]),
            r matches Err(e) ==> e.noted(),
    {
        let ghost t = self.tokens_view();
        let ghost p = self.position();
        let mut statements: Vec<Statement> = Vec::new();
        proof {
            assert(block_view(&statements) =~= Seq::<StmtV>::empty());
        }
        while !self.tokens.empty()
            invariant
                self.wf(),
                self.tokens_view() == t,
                p <= self.position(),
                t == old(self).tokens_view(),
                p == old(self).position(),
                parse_program_spec(t, p, seq![]) == parse_program_spec(
                    t,
                    self.position(),
                    block_view(&statements),
                ),
            decreases t.len() - self.position(),
        {
            let statement = match self.parse_statement() {
                Ok(v) => v,
                Err(e) => return Err(e),
            };
            let ghost before = block_view(&statements);
            statements.push(statement);
            proof {
                assert(block_view(&statements) =~= before.push(statement@));
            }
        }
        Ok(statements)
    }

    /// Parses top-level statements up to `EOI`.
    pub fn parse(self) -> (r: Result<Vec<Statement>, ParserError>)
        requires
            self.wf(),
        ensures
            program_res(r) == parse_program_spec(self.tokens_view(), self.position(), seq![]),
            r matches Err(e) ==> e.noted(),
    {
        let mut parser = self;
        parser.parse_program()
    }
}

} // verus!
