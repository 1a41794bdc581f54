use crate::token::{Token, TokenView};
use crate::typed_ast::{type_text, Type};
use vstd::prelude::*;
use vstd::string::*;

verus! {

#[derive(Debug, Clone, Copy, PartialEq, Eq, Structural, PartialOrd, Ord)]
pub enum BinaryOperator {
    Add,
    Equals,
    GreaterThan,
    Or,
    And,
}

#[derive(Debug, Clone, Copy, PartialEq, Eq, Structural, PartialOrd, Ord)]
pub enum UnaryOperator {
    Sub,
    Not,
}

/// The source symbol of a binary operator.
pub open spec fn binary_symbol(op: BinaryOperator) -> Seq<char> {
    match op {
        BinaryOperator::Add => "+"@,
        BinaryOperator::Equals => "=="@,
        BinaryOperator::GreaterThan => ">"@,
        BinaryOperator::Or => "||"@,
        BinaryOperator::And => "&&"@,
    }
}

/// The source symbol of a unary operator.
pub open spec fn unary_symbol(op: UnaryOperator) -> Seq<char> {
    match op {
        UnaryOperator::Sub => "-"@,
        UnaryOperator::Not => "!"@,
    }
}

impl BinaryOperator {
    pub fn symbol(&self) -> (r: String)
        ensures
            r@ == binary_symbol(*self),
    {
        match self {
            BinaryOperator::Add => String::from_str("+"),
            BinaryOperator::Equals => String::from_str("=="),
            BinaryOperator::GreaterThan => String::from_str(">"),
            BinaryOperator::Or => String::from_str("||"),
            BinaryOperator::And => String::from_str("&&"),
        }
    }
}

impl UnaryOperator {
    pub fn symbol(&self) -> (r: String)
        ensures
            r@ == unary_symbol(*self),
    {
        match self {
            UnaryOperator::Sub => String::from_str("-"),
            UnaryOperator::Not => String::from_str("!"),
        }
    }
}

/// A type as written in source, including a list whose element type is not known.
#[derive(Debug, PartialEq, Eq)]
pub enum AstType {
    Int,
    Bool,
    List(Box<AstType>),
    UntypedList,
}

pub open spec fn ast_type_text(t: AstType) -> Seq<char>
    decreases t,
{
    match t {
        AstType::Int => "int"@,
        AstType::Bool => "bool"@,
        AstType::List(inner) => "list<"@ + ast_type_text(*inner) + ">"@,
        AstType::UntypedList => "list<Untyped>"@,
    }
}

impl AstType {
    pub fn to_text(&self) -> (r: String)
        ensures
            r@ == ast_type_text(*self),
        decreases self,
    {
        match self {
            AstType::Int => String::from_str("int"),
            AstType::Bool => String::from_str("bool"),
            AstType::List(inner) => {
                let mut s = String::from_str("list<");
                let t = inner.to_text();
                s.append(t.as_str());
                s.append(">");
                s
            },
            AstType::UntypedList => String::from_str("list<Untyped>"),
        }
    }
}

/// An untyped expression.
#[derive(Debug)]
pub enum Expression {
    If { condition: Box<Expression>, true_block: Block, else_block: Option<Block> },
    BinaryOperation { lhs: Box<Expression>, operator: BinaryOperator, rhs: Box<Expression> },
    FunctionCall { name: Token, arguments: Vec<Expression> },
    UnaryOperation { operator: UnaryOperator, rhs: Box<Expression> },
    Int(Token),
    Bool(bool, Token),
    List(Vec<Expression>),
    Name(Token),
}

/// A function definition: name, return type, parameters and body.
#[derive(Debug)]
pub struct FunctionDefinition {
    pub name: Token,
    pub type_: Type,
    pub arg_list: Vec<(Token, Type)>,
    pub body: Block,
}

/// An untyped statement.
#[derive(Debug)]
pub enum Statement {
    VariableDeclaration { name: Token, type_: Type, value: Expression },
    FunctionDefinitionStatement(FunctionDefinition),
    Assignment { to: Token, value: Expression },
    While { condition: Expression, body: Block },
    Return(Expression),
    Expression(Expression),
}

/// An ordered sequence of statements.
pub type Block = Vec<Statement>;

/// The mathematical form of an expression.
pub enum ExprV {
    If { condition: Box<ExprV>, true_block: Seq<StmtV>, else_block: Option<Seq<StmtV>> },
    BinaryOperation { lhs: Box<ExprV>, operator: BinaryOperator, rhs: Box<ExprV> },
    FunctionCall { name: TokenView, arguments: Seq<ExprV> },
    UnaryOperation { operator: UnaryOperator, rhs: Box<ExprV> },
    Int(TokenView),
    Bool(bool, TokenView),
    List(Seq<ExprV>),
    Name(TokenView),
}

/// The mathematical form of a statement.
pub enum StmtV {
    VariableDeclaration { name: TokenView, type_: Type, value: ExprV },
    FunctionDefinition {
        name: TokenView,
        type_: Type,
        arg_list: Seq<(TokenView, Type)>,
        body: Seq<StmtV>,
    },
    Assignment { to: TokenView, value: ExprV },
    While { condition: ExprV, body: Seq<StmtV> },
    Return(ExprV),
    Expression(ExprV),
}

pub open spec fn param_views(args: Seq<(Token, Type)>) -> Seq<(TokenView, Type)> {
    args.map_values(|a: (Token, Type)| (a.0@, a.1))
}

pub open spec fn block_view(b: &Block) -> Seq<StmtV>
    decreases b,
{
    Seq::new(
        b@.len(),
        |i: int|
            if 0 <= i < b@.len() {
                b@[i].view()
            } else {
                StmtV::Expression(ExprV::List(Seq::empty()))
            },
    )
}

pub open spec fn exprs_view(v: &Vec<Expression>) -> Seq<ExprV>
    decreases v,
{
    Seq::new(
        v@.len(),
        |i: int|
            if 0 <= i < v@.len() {
                v@[i].view()
            } else {
                ExprV::List(Seq::empty())
            },
    )
}

impl Expression {
    pub open spec fn view(&self) -> ExprV
        decreases self,
    {
        match self {
            Expression::If { condition, true_block, else_block } => ExprV::If {
                condition: Box::new(condition.view()),
                true_block: block_view(true_block),
                else_block: match else_block {
                    Some(b) => Some(block_view(b)),
                    None => None,
                },
            },
            Expression::BinaryOperation { lhs, operator, rhs } => ExprV::BinaryOperation {
                lhs: Box::new(lhs.view()),
                operator: *operator,
                rhs: Box::new(rhs.view()),
            },
            Expression::FunctionCall { name, arguments } => ExprV::FunctionCall {
                name: name@,
                arguments: exprs_view(arguments),
            },
            Expression::UnaryOperation { operator, rhs } => ExprV::UnaryOperation {
                operator: *operator,
                rhs: Box::new(rhs.view()),
            },
            Expression::Int(t) => ExprV::Int(t@),
            Expression::Bool(b, t) => ExprV::Bool(*b, t@),
            Expression::List(elements) => ExprV::List(exprs_view(elements)),
            Expression::Name(t) => ExprV::Name(t@),
        }
    }
}

impl Statement {
    pub open spec fn view(&self) -> StmtV
        decreases self,
    {
        match self {
            Statement::VariableDeclaration { name, type_, value } => StmtV::VariableDeclaration {
                name: name@,
                type_: *type_,
                value: value.view(),
            },
            Statement::FunctionDefinitionStatement(def) => StmtV::FunctionDefinition {
                name: def.name@,
                type_: def.type_,
                arg_list: param_views(def.arg_list@),
                body: block_view(&def.body),
            },
            Statement::Assignment { to, value } => StmtV::Assignment {
                to: to@,
                value: value.view(),
            },
            Statement::While { condition, body } => StmtV::While {
                condition: condition.view(),
                body: block_view(body),
            },
            Statement::Return(e) => StmtV::Return(e.view()),
            Statement::Expression(e) => StmtV::Expression(e.view()),
        }
    }
}

} // verus!
