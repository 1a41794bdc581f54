use crate::ast::{BinaryOperator, UnaryOperator};
use crate::token::{Token, TokenView};
use vstd::prelude::*;
use vstd::string::*;

verus! {

/// A source type. `Unit` is the type of a block that yields nothing.
#[derive(Debug, PartialEq, Eq)]
pub enum Type {
    Int,
    Bool,
    List(Box<Type>),
    Unit,
}

/// The IR type that a source type lowers to; lists have none.
pub open spec fn llvm_type_spec(t: Type) -> Seq<char> {
    match t {
        Type::Int => "i32"@,
        Type::Bool => "i1"@,
        Type::List(_) => Seq::empty(),
        Type::Unit => ""@,
    }
}

/// The name of a type as the source language writes it (`unit` for `Unit`).
pub open spec fn type_text(t: Type) -> Seq<char>
    decreases t,
{
    match t {
        Type::Int => "int"@,
        Type::Bool => "bool"@,
        Type::List(inner) => "list<"@ + type_text(*inner) + ">"@,
        Type::Unit => "unit"@,
    }
}

impl Type {
    /// A copy of this type.
    pub fn duplicate(&self) -> (r: Type)
        ensures
            r == *self,
        decreases self,
    {
        match self {
            Type::Int => Type::Int,
            Type::Bool => Type::Bool,
            Type::List(inner) => Type::List(Box::new(inner.duplicate())),
            Type::Unit => Type::Unit,
        }
    }

    /// Whether two types are the same.
    pub fn same(&self, other: &Type) -> (r: bool)
        ensures
            r == (*self == *other),
        decreases self,
    {
        match (self, other) {
            (Type::Int, Type::Int) => true,
            (Type::Bool, Type::Bool) => true,
            (Type::Unit, Type::Unit) => true,
            (Type::List(a), Type::List(b)) => a.same(b),
            _ => false,
        }
    }

    /// The IR type string: `i32` for `Int`, `i1` for `Bool`, empty for `Unit`.
    /// Lists are not lowered.
    pub fn llvm_type(&self) -> (r: String)
        requires
            !(self is List),
        ensures
            r@ == llvm_type_spec(*self),
    {
        match self {
            Type::Int => String::from_str("i32"),
            Type::Bool => String::from_str("i1"),
            Type::Unit => String::from_str(""),
            Type::List(_) => String::new(),
        }
    }

    /// The type's name in source syntax.
    pub fn to_text(&self) -> (r: String)
        ensures
            r@ == type_text(*self),
        decreases self,
    {
        match self {
            Type::Int => String::from_str("int"),
            Type::Bool => String::from_str("bool"),
            Type::List(inner) => {
                let mut s = String::from_str("list<");
                let t = inner.to_text();
                s.append(t.as_str());
                s.append(">");
                s
            },
            Type::Unit => String::from_str("unit"),
        }
    }
}

/// The typed form of an expression.
#[derive(Debug)]
pub enum TypedExpression {
    If { condition: Box<TypedExpression>, true_block: TypedBlock, else_block: Option<TypedBlock> },
    BinaryOperation {
        lhs: Box<TypedExpression>,
        operator: BinaryOperator,
        rhs: Box<TypedExpression>,
        type_: Type,
    },
    FunctionCall { name: Token, arguments: Vec<TypedExpression>, type_: Type },
    UnaryOperation { operator: UnaryOperator, rhs: Box<TypedExpression> },
    Int(Token),
    Bool(bool, Token),
    List(Vec<TypedExpression>, Type),
    Name(Token, Type),
}

/// A typed block: its statements and the type of its last one (`Unit` when empty).
#[derive(Debug)]
pub struct TypedBlock {
    pub body: Vec<TypedStatement>,
    pub type_: Type,
}

/// A typed function definition.
#[derive(Debug)]
pub struct FunctionDefinition {
    pub name: Token,
    pub type_: Type,
    pub arg_list: Vec<(Token, Type)>,
    pub body: TypedBlock,
}

/// The typed form of a statement.
#[derive(Debug)]
pub enum TypedStatement {
    VariableDeclaration { name: Token, type_: Type, value: TypedExpression },
    FunctionDefinitionStatement(FunctionDefinition),
    Assignment { to: Token, value: TypedExpression },
    While { condition: TypedExpression, body: TypedBlock },
    Return(TypedExpression),
    Expression(TypedExpression),
}

/// The mathematical form of a typed expression.
pub enum TExprV {
    If { condition: Box<TExprV>, true_block: TBlockV, else_block: Option<TBlockV> },
    BinaryOperation { lhs: Box<TExprV>, operator: BinaryOperator, rhs: Box<TExprV>, type_: Type },
    FunctionCall { name: TokenView, arguments: Seq<TExprV>, type_: Type },
    UnaryOperation { operator: UnaryOperator, rhs: Box<TExprV> },
    Int(TokenView),
    Bool(bool, TokenView),
    List(Seq<TExprV>, Type),
    Name(TokenView, Type),
}

pub struct TBlockV {
    pub body: Seq<TStmtV>,
    pub type_: Type,
}

pub enum TStmtV {
    VariableDeclaration { name: TokenView, type_: Type, value: TExprV },
    FunctionDefinition {
        name: TokenView,
        type_: Type,
        arg_list: Seq<(TokenView, Type)>,
        body: TBlockV,
    },
    Assignment { to: TokenView, value: TExprV },
    While { condition: TExprV, body: TBlockV },
    Return(TExprV),
    Expression(TExprV),
}

pub open spec fn arg_views(args: Seq<(Token, Type)>) -> Seq<(TokenView, Type)> {
    args.map_values(|a: (Token, Type)| (a.0@, a.1))
}

impl TypedExpression {
    pub open spec fn view(&self) -> TExprV
        decreases self,
    {
        match self {
            TypedExpression::If { condition, true_block, else_block } => TExprV::If {
                condition: Box::new(condition.view()),
                true_block: true_block.view(),
                else_block: match else_block {
                    Some(b) => Some(b.view()),
                    None => None,
                },
            },
            TypedExpression::BinaryOperation { lhs, operator, rhs, type_ } => TExprV::BinaryOperation {
                lhs: Box::new(lhs.view()),
                operator: *operator,
                rhs: Box::new(rhs.view()),
                type_: *type_,
            },
            TypedExpression::FunctionCall { name, arguments, type_ } => TExprV::FunctionCall {
                name: name@,
                arguments: Seq::new(
                    arguments@.len(),
                    |i: int|
                        if 0 <= i < arguments@.len() {
                            arguments@[i].view()
                        } else {
                            TExprV::List(Seq::empty(), Type::Unit)
                        },
                ),
                type_: *type_,
            },
            TypedExpression::UnaryOperation { operator, rhs } => TExprV::UnaryOperation {
                operator: *operator,
                rhs: Box::new(rhs.view()),
            },
            TypedExpression::Int(t) => TExprV::Int(t@),
            TypedExpression::Bool(b, t) => TExprV::Bool(*b, t@),
            TypedExpression::List(elements, t) => TExprV::List(
                Seq::new(
                    elements@.len(),
                    |i: int|
                        if 0 <= i < elements@.len() {
                            elements@[i].view()
                        } else {
                            TExprV::List(Seq::empty(), Type::Unit)
                        },
                ),
                *t,
            ),
            TypedExpression::Name(t, ty) => TExprV::Name(t@, *ty),
        }
    }
}

impl TypedBlock {
    pub open spec fn view(&self) -> TBlockV
        decreases self,
    {
        TBlockV {
            body: Seq::new(
                self.body@.len(),
                |i: int|
                    if 0 <= i < self.body@.len() {
                        self.body@[i].view()
                    } else {
                        TStmtV::Return(TExprV::List(Seq::empty(), Type::Unit))
                    },
            ),
            type_: self.type_,
        }
    }
}

impl TypedStatement {
    pub open spec fn view(&self) -> TStmtV
        decreases self,
    {
        match self {
            TypedStatement::VariableDeclaration { name, type_, value } => TStmtV::VariableDeclaration {
                name: name@,
                type_: *type_,
                value: value.view(),
            },
            TypedStatement::FunctionDefinitionStatement(def) => TStmtV::FunctionDefinition {
                name: def.name@,
                type_: def.type_,
                arg_list: arg_views(def.arg_list@),
                body: def.body.view(),
            },
            TypedStatement::Assignment { to, value } => TStmtV::Assignment {
                to: to@,
                value: value.view(),
            },
            TypedStatement::While { condition, body } => TStmtV::While {
                condition: condition.view(),
                body: body.view(),
            },
            TypedStatement::Return(e) => TStmtV::Return(e.view()),
            TypedStatement::Expression(e) => TStmtV::Expression(e.view()),
        }
    }
}

/// The type of a typed expression: an `If` has its true block's type, a unary
/// operation its operand's.
pub open spec fn texpr_type(e: TExprV) -> Type
    decreases e,
{
    match e {
        TExprV::If { true_block, .. } => true_block.type_,
        TExprV::BinaryOperation { type_, .. } => type_,
        TExprV::FunctionCall { type_, .. } => type_,
        TExprV::UnaryOperation { rhs, .. } => texpr_type(*rhs),
        TExprV::Int(_) => Type::Int,
        TExprV::Bool(_, _) => Type::Bool,
        TExprV::List(_, t) => t,
        TExprV::Name(_, t) => t,
    }
}

/// The type of a typed statement.
pub open spec fn tstmt_type(s: TStmtV) -> Type {
    match s {
        TStmtV::VariableDeclaration { type_, .. } => type_,
        TStmtV::FunctionDefinition { type_, .. } => type_,
        TStmtV::Assignment { value, .. } => texpr_type(value),
        TStmtV::While { body, .. } => body.type_,
        TStmtV::Return(e) => texpr_type(e),
        TStmtV::Expression(e) => texpr_type(e),
    }
}

impl TypedExpression {
    pub fn get_type(&self) -> (r: Type)
        ensures
            r == texpr_type(self@),
        decreases self,
    {
        match self {
            TypedExpression::If { true_block, .. } => {
                proof {
                    assert(true_block.view().type_ == true_block.type_);
                }
                true_block.type_.duplicate()
            },
            TypedExpression::BinaryOperation { type_, .. } => type_.duplicate(),
            TypedExpression::FunctionCall { type_, .. } => type_.duplicate(),
            TypedExpression::UnaryOperation { rhs, .. } => rhs.get_type(),
            TypedExpression::Int(_) => Type::Int,
            TypedExpression::Bool(_, _) => Type::Bool,
            TypedExpression::List(_, t) => t.duplicate(),
            TypedExpression::Name(_, t) => t.duplicate(),
        }
    }
}

impl TypedStatement {
    pub fn get_type(&self) -> (r: Type)
        ensures
            r == tstmt_type(self@),
    {
        match self {
            TypedStatement::VariableDeclaration { type_, .. } => type_.duplicate(),
            TypedStatement::FunctionDefinitionStatement(def) => def.type_.duplicate(),
            TypedStatement::Assignment { value, .. } => value.get_type(),
            TypedStatement::While { body, .. } => {
                proof {
                    assert(body.view().type_ == body.type_);
                }
                body.type_.duplicate()
            },
            TypedStatement::Return(e) => e.get_type(),
            TypedStatement::Expression(e) => e.get_type(),
        }
    }
}

} // verus!
