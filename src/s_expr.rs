use crate::ast::{
    binary_symbol, unary_symbol, Block, ExprV, Expression, Statement, StmtV,
};
use crate::token::TokenView;
use crate::typed_ast::{
    texpr_type, type_text, TBlockV, TExprV, TStmtV, Type, TypedBlock, TypedExpression,
    TypedStatement,
};
use vstd::prelude::*;
use vstd::string::*;

verus! {

/// A printable tree: a bare value, or a head applied to arguments.
#[derive(Debug, PartialEq, Eq)]
pub enum SExpr {
    Value(String),
    Function(String, Vec<SExpr>),
}

/// The mathematical form of an s-expression.
pub enum SExprV {
    Value(Seq<char>),
    Function(Seq<char>, Seq<SExprV>),
}

impl SExpr {
    pub open spec fn view(&self) -> SExprV
        decreases self,
    {
        match self {
            SExpr::Value(v) => SExprV::Value(v@),
            SExpr::Function(h, args) => SExprV::Function(
                h@,
                Seq::new(
                    args@.len(),
                    |i: int|
                        if 0 <= i < args@.len() {
                            args@[i].view()
                        } else {
                            SExprV::Value(Seq::empty())
                        },
                ),
            ),
        }
    }

    /// Splits an s-expression into its head and its arguments (none for a value).
    pub fn release(self) -> (r: (String, Vec<SExpr>))
        ensures
            released(self@) == (r.0@, sexprs_view(r.1@)),
    {
        match self {
            SExpr::Value(v) => {
                let args: Vec<SExpr> = Vec::new();
                proof {
                    assert(sexprs_view(args@) =~= Seq::<SExprV>::empty());
                }
                (v, args)
            },
            SExpr::Function(h, args) => {
                proof {
                    assert(sexprs_view(args@) =~= self@->Function_1);
                }
                (h, args)
            },
        }
    }
}

pub open spec fn sexprs_view(v: Seq<SExpr>) -> Seq<SExprV> {
    v.map_values(|s: SExpr| s@)
}

/// The head and the arguments of an s-expression.
pub open spec fn released(s: SExprV) -> (Seq<char>, Seq<SExprV>) {
    match s {
        SExprV::Value(v) => (v, Seq::empty()),
        SExprV::Function(h, args) => (h, args),
    }
}

/// A block prints as its first statement with the others appended to its
/// arguments; an empty block prints as `(empty_block)`.
pub open spec fn join_block(items: Seq<SExprV>) -> SExprV {
    if items.len() == 0 {
        SExprV::Function("empty_block"@, Seq::empty())
    } else {
        SExprV::Function(released(items[0]).0, released(items[0]).1 + items.drop_first())
    }
}

pub open spec fn typed_text(name: TokenView, t: Type) -> Seq<char> {
    name.lexeme + ":"@ + type_text(t)
}

pub open spec fn expr_sexpr(e: ExprV) -> SExprV
    decreases e, 0int,
{
    match e {
        ExprV::If { condition, true_block, else_block } => SExprV::Function(
            "if"@,
            seq![expr_sexpr(*condition), block_sexpr(true_block)] + match else_block {
                Some(b) => seq![block_sexpr(b)],
                None => Seq::empty(),
            },
        ),
        ExprV::BinaryOperation { lhs, operator, rhs } => SExprV::Function(
            binary_symbol(operator),
            seq![expr_sexpr(*lhs), expr_sexpr(*rhs)],
        ),
        ExprV::FunctionCall { name, arguments } => SExprV::Function(
            name.lexeme,
            exprs_sexpr(arguments),
        ),
        ExprV::UnaryOperation { operator, rhs } => SExprV::Function(
            unary_symbol(operator),
            seq![expr_sexpr(*rhs)],
        ),
        ExprV::Int(t) => SExprV::Value(t.lexeme),
        ExprV::Bool(b, _) => SExprV::Value(
            if b {
                "true"@
            } else {
                "false"@
            },
        ),
        ExprV::List(elements) => SExprV::Function("list"@, exprs_sexpr(elements)),
        ExprV::Name(t) => SExprV::Value(t.lexeme),
    }
}

pub open spec fn exprs_sexpr(es: Seq<ExprV>) -> Seq<SExprV>
    decreases es, 0int,
{
    Seq::new(
        es.len(),
        |i: int|
            if 0 <= i < es.len() {
                expr_sexpr(es[i])
            } else {
                SExprV::Value(Seq::empty())
            },
    )
}

pub open spec fn stmt_sexpr(s: StmtV) -> SExprV
    decreases s, 0int,
{
    match s {
        StmtV::VariableDeclaration { name, type_, value } => SExprV::Function(
            "variable_declaration"@,
            seq![SExprV::Value(typed_text(name, type_)), expr_sexpr(value)],
        ),
        StmtV::FunctionDefinition { name, type_, arg_list, body } => SExprV::Function(
            "function_define"@,
            seq![SExprV::Value(name.lexeme)] + params_sexpr(arg_list) + seq![
                block_sexpr(body),
                SExprV::Value("->"@ + type_text(type_)),
            ],
        ),
        StmtV::Assignment { to, value } => SExprV::Function(
            "="@,
            seq![SExprV::Value(to.lexeme), expr_sexpr(value)],
        ),
        StmtV::While { condition, body } => SExprV::Function(
            "while"@,
            seq![expr_sexpr(condition), block_sexpr(body)],
        ),
        StmtV::Return(e) => SExprV::Function("return"@, seq![expr_sexpr(e)]),
        StmtV::Expression(e) => expr_sexpr(e),
    }
}

pub open spec fn params_sexpr(ps: Seq<(TokenView, Type)>) -> Seq<SExprV> {
    ps.map_values(|p: (TokenView, Type)| SExprV::Value(typed_text(p.0, p.1)))
}

pub open spec fn stmts_sexpr(b: Seq<StmtV>) -> Seq<SExprV>
    decreases b, 0int,
{
    Seq::new(
        b.len(),
        |i: int|
            if 0 <= i < b.len() {
                stmt_sexpr(b[i])
            } else {
                SExprV::Value(Seq::empty())
            },
    )
}

pub open spec fn block_sexpr(b: Seq<StmtV>) -> SExprV
    decreases b, 1int,
{
    join_block(stmts_sexpr(b))
}


fn text_of(s: &str) -> (r: String)
    ensures
        r@ == s@,
{
    String::from_str(s)
}

fn leaf(s: &str) -> (r: SExpr)
    ensures
        r@ == SExprV::Value(s@),
{
    SExpr::Value(text_of(s))
}

/// `name:type`
fn typed_name(name: &crate::token::Token, t: &Type) -> (r: String)
    ensures
        r@ == typed_text(name@, *t),
{
    let mut s = text_of(name.lexeme());
    s.append(":");
    let tt = t.to_text();
    s.append(tt.as_str());
    s
}

/// An s-expression with head `head` and arguments `args`.
fn apply(head: String, args: Vec<SExpr>) -> (r: SExpr)
    ensures
        r@ == SExprV::Function(head@, sexprs_view(args@)),
{
    let r = SExpr::Function(head, args);
    proof {
        assert(r@->Function_1 =~= sexprs_view(args@));
    }
    r
}

/// Joins printed statements into the form of their block.
fn join_items(items: Vec<SExpr>) -> (r: SExpr)
    ensures
        r@ == join_block(sexprs_view(items@)),
{
    let mut items = items;
    if items.len() == 0 {
        let none: Vec<SExpr> = Vec::new();
        proof {
            assert(sexprs_view(none@) =~= Seq::<SExprV>::empty());
        }
        return apply(text_of("empty_block"), none);
    }
    let ghost whole = sexprs_view(items@);
    let first = items.remove(0);
    let (head, mut args) = first.release();
    let ghost first_args = sexprs_view(args@);
    args.append(&mut items);
    proof {
        assert(sexprs_view(args@) =~= first_args + whole.drop_first());
    }
    apply(head, args)
}

fn push_item(v: &mut Vec<SExpr>, item: SExpr)
    ensures
        sexprs_view(final(v)@) == sexprs_view(old(v)@).push(item@),
{
    v.push(item);
    proof {
        assert(sexprs_view(v@) =~= sexprs_view(old(v)@).push(item@));
    }
}

pub fn exprs_to_s_expr(es: &Vec<Expression>) -> (r: Vec<SExpr>)
    ensures
        sexprs_view(r@) == exprs_sexpr(crate::ast::exprs_view(es)),
    decreases es,
{
    let mut out: Vec<SExpr> = Vec::new();
    let mut i: usize = 0;
    proof {
        assert forall|j: int| 0 <= j < es.len() implies decreases_to!(*es => #[trigger] es[j]) by {
            assert(decreases_to!(*es => es[j]));
        }
    }
    while i < es.len()
        invariant
            i <= es.len(),
            forall|j: int| 0 <= j < es.len() ==> decreases_to!(*es => #[trigger] es[j]),
            sexprs_view(out@) =~= exprs_sexpr(crate::ast::exprs_view(es)).subrange(0, i as int),
        decreases es.len() - i,
    {
        let item = expr_to_s_expr(&es[i]);
        push_item(&mut out, item);
        i = i + 1;
    }
    out
}

pub fn expr_to_s_expr(e: &Expression) -> (r: SExpr)
    ensures
        r@ == expr_sexpr(e@),
    decreases e,
{
    match e {
        Expression::If { condition, true_block, else_block } => {
            let mut args: Vec<SExpr> = Vec::new();
            push_item(&mut args, expr_to_s_expr(condition));
            push_item(&mut args, block_to_s_expr(true_block));
            match else_block {
                Some(b) => {
                    proof {
                        assert(decreases_to!(*e => *else_block));
                    }
                    push_item(&mut args, block_to_s_expr(b));
                },
                None => {},
            }
            let r = apply(text_of("if"), args);
            proof {
                assert(sexprs_view(args@) =~= seq![expr_sexpr(condition@), block_sexpr(crate::ast::block_view(true_block))] + match e@->If_else_block {
                    Some(b) => seq![block_sexpr(b)],
                    None => Seq::empty(),
                });
            }
            r
        },
        Expression::BinaryOperation { lhs, operator, rhs } => {
            let mut args: Vec<SExpr> = Vec::new();
            push_item(&mut args, expr_to_s_expr(lhs));
            push_item(&mut args, expr_to_s_expr(rhs));
            proof {
                assert(sexprs_view(args@) =~= seq![expr_sexpr(lhs@), expr_sexpr(rhs@)]);
            }
            apply(operator.symbol(), args)
        },
        Expression::FunctionCall { name, arguments } => {
            let args = exprs_to_s_expr(arguments);
            apply(text_of(name.lexeme()), args)
        },
        Expression::UnaryOperation { operator, rhs } => {
            let mut args: Vec<SExpr> = Vec::new();
            push_item(&mut args, expr_to_s_expr(rhs));
            proof {
                assert(sexprs_view(args@) =~= seq![expr_sexpr(rhs@)]);
            }
            apply(operator.symbol(), args)
        },
        Expression::Int(t) => leaf(t.lexeme()),
        Expression::Bool(b, _) => if *b {
            leaf("true")
        } else {
            leaf("false")
        },
        Expression::List(elements) => {
            let args = exprs_to_s_expr(elements);
            apply(text_of("list"), args)
        },
        Expression::Name(t) => leaf(t.lexeme()),
    }
}

pub fn stmt_to_s_expr(st: &Statement) -> (r: SExpr)
    ensures
        r@ == stmt_sexpr(st@),
    decreases st,
{
    match st {
        Statement::VariableDeclaration { name, type_, value } => {
            let mut args: Vec<SExpr> = Vec::new();
            push_item(&mut args, SExpr::Value(typed_name(name, type_)));
            push_item(&mut args, expr_to_s_expr(value));
            proof {
                assert(sexprs_view(args@) =~= seq![SExprV::Value(typed_text(name@, *type_)), expr_sexpr(value@)]);
            }
            apply(text_of("variable_declaration"), args)
        },
        Statement::FunctionDefinitionStatement(def) => {
            let mut args: Vec<SExpr> = Vec::new();
            push_item(&mut args, leaf(def.name.lexeme()));
            let mut i: usize = 0;
            while i < def.arg_list.len()
                invariant
                    i <= def.arg_list.len(),
                    sexprs_view(args@) =~= seq![SExprV::Value(def.name@.lexeme)] + params_sexpr(
                        crate::ast::param_views(def.arg_list@),
                    ).subrange(0, i as int),
                decreases def.arg_list.len() - i,
            {
                let (ref n, ref t) = def.arg_list[i];
                push_item(&mut args, SExpr::Value(typed_name(n, t)));
                i = i + 1;
            }
            proof {
                assert(decreases_to!(*st => st->FunctionDefinitionStatement_0));
            }
            let ghost params = params_sexpr(crate::ast::param_views(def.arg_list@));
            proof {
                assert(params.subrange(0, def.arg_list@.len() as int) =~= params);
            }
            push_item(&mut args, block_to_s_expr(&def.body));
            let mut arrow = text_of("->");
            let tt = def.type_.to_text();
            arrow.append(tt.as_str());
            push_item(&mut args, SExpr::Value(arrow));
            proof {
                assert(sexprs_view(args@) =~= seq![SExprV::Value(def.name@.lexeme)] + params + seq![
                    block_sexpr(crate::ast::block_view(&def.body)),
                    SExprV::Value("->"@ + type_text(def.type_)),
                ]);
            }
            apply(text_of("function_define"), args)
        },
        Statement::Assignment { to, value } => {
            let mut args: Vec<SExpr> = Vec::new();
            push_item(&mut args, leaf(to.lexeme()));
            push_item(&mut args, expr_to_s_expr(value));
            proof {
                assert(sexprs_view(args@) =~= seq![SExprV::Value(to@.lexeme), expr_sexpr(value@)]);
            }
            apply(text_of("="), args)
        },
        Statement::While { condition, body } => {
            let mut args: Vec<SExpr> = Vec::new();
            push_item(&mut args, expr_to_s_expr(condition));
            push_item(&mut args, block_to_s_expr(body));
            proof {
                assert(sexprs_view(args@) =~= seq![expr_sexpr(condition@), block_sexpr(crate::ast::block_view(body))]);
            }
            apply(text_of("while"), args)
        },
        Statement::Return(e) => {
            let mut args: Vec<SExpr> = Vec::new();
            push_item(&mut args, expr_to_s_expr(e));
            proof {
                assert(sexprs_view(args@) =~= seq![expr_sexpr(e@)]);
            }
            apply(text_of("return"), args)
        },
        Statement::Expression(e) => expr_to_s_expr(e),
    }
}

pub fn block_to_s_expr(b: &Block) -> (r: SExpr)
    ensures
        r@ == block_sexpr(crate::ast::block_view(b)),
    decreases b,
{
    let mut items: Vec<SExpr> = Vec::new();
    let mut i: usize = 0;
    let ghost printed = Seq::new(
        b@.len(),
        |j: int|
            if 0 <= j < b@.len() {
                stmt_sexpr(b@[j]@)
            } else {
                SExprV::Value(Seq::empty())
            },
    );
    proof {
        assert forall|j: int| 0 <= j < b.len() implies decreases_to!(*b => #[trigger] b[j]) by {
            assert(decreases_to!(*b => b[j]));
        }
    }
    while i < b.len()
        invariant
            i <= b.len(),
            forall|j: int| 0 <= j < b.len() ==> decreases_to!(*b => #[trigger] b[j]),
            printed.len() == b.len(),
            forall|j: int| 0 <= j < b.len() ==> #[trigger] printed[j] == stmt_sexpr(b@[j]@),
            sexprs_view(items@) =~= printed.subrange(0, i as int),
        decreases b.len() - i,
    {
        let item = stmt_to_s_expr(&b[i]);
        push_item(&mut items, item);
        i = i + 1;
    }
    proof {
        let bv = crate::ast::block_view(b);
        assert(bv.len() == b@.len());
        assert forall|j: int| 0 <= j < bv.len() implies bv[j] == b@[j]@ by {}
        assert(stmts_sexpr(bv) =~= printed);
        assert(sexprs_view(items@) =~= printed);
        assert(block_sexpr(bv) == join_block(stmts_sexpr(bv)));
    }
    let r = join_items(items);
    r
}

/// Printing as an s-expression, for checking the shape of syntax trees.
pub trait ToSExpr {
    spec fn s_expr_spec(&self) -> SExprV;

    fn to_s_expr(&self) -> (r: SExpr)
        ensures
            r@ == self.s_expr_spec(),
    ;
}

impl ToSExpr for Expression {
    open spec fn s_expr_spec(&self) -> SExprV {
        expr_sexpr(self@)
    }

    fn to_s_expr(&self) -> (r: SExpr) {
        expr_to_s_expr(self)
    }
}

impl ToSExpr for Statement {
    open spec fn s_expr_spec(&self) -> SExprV {
        stmt_sexpr(self@)
    }

    fn to_s_expr(&self) -> (r: SExpr) {
        stmt_to_s_expr(self)
    }
}

impl ToSExpr for Block {
    open spec fn s_expr_spec(&self) -> SExprV {
        block_sexpr(crate::ast::block_view(self))
    }

    fn to_s_expr(&self) -> (r: SExpr) {
        block_to_s_expr(self)
    }
}


/// A token of s-expression text.
#[derive(Debug, PartialEq, Eq)]
pub enum SExprToken {
    LParen,
    RParen,
    Value(String),
}

/// What `char::is_whitespace` returns on `c` (the Unicode `White_Space` property).
pub uninterp spec fn is_whitespace_char(c: char) -> bool;

/// White space as s-expression text knows it; among ASCII characters that is the
/// space and tab through carriage return.
pub open spec fn is_space(c: char) -> bool {
    if (c as u32) < 128 {
        c == ' ' || ('\t' <= c && c <= '\r')
    } else {
        is_whitespace_char(c)
    }
}

/// Relies on `char::is_whitespace`, which depends on `c` alone; among ASCII
/// characters exactly U+0009 to U+000D and the space have the `White_Space` property.
#[verifier::external_body]
fn whitespace(c: char) -> (r: bool)
    ensures
        r == is_whitespace_char(c),
        (c as u32) < 128 ==> (r == (c == ' ' || ('\t' <= c && c <= '\r'))),
{
    c.is_whitespace()
}

pub open spec fn opt_sexpr(r: Option<SExpr>) -> Option<SExprV> {
    match r {
        Some(s) => Some(s@),
        None => None,
    }
}

/// Reads one s-expression from the tokens at `p`: a word is a value, and a
/// parenthesised group takes its first element's head as its own head, the rest
/// as arguments. Gives the position after what was read.
pub open spec fn read_spec(toks: Seq<STokV>, p: int) -> (Option<SExprV>, int)
    decreases toks.len() - p, 0int,
{
    if p < 0 || p >= toks.len() {
        (None, p)
    } else {
        match toks[p] {
            STokV::RParen => (None, p + 1),
            STokV::Value(t) => (Some(SExprV::Value(t)), p + 1),
            STokV::LParen => {
                let (args, q) = read_args_spec(toks, p + 1, seq![]);
                if args.len() == 0 {
                    (None, q)
                } else {
                    (Some(SExprV::Function(released(args[0]).0, args.drop_first())), q)
                }
            },
        }
    }
}

/// Reads s-expressions from `p` until one cannot be read (a `)` or the end), after `acc`.
pub open spec fn read_args_spec(toks: Seq<STokV>, p: int, acc: Seq<SExprV>) -> (Seq<SExprV>, int)
    decreases toks.len() - p, 1int,
{
    if p < 0 || p > toks.len() {
        (acc, p)
    } else {
        match read_spec(toks, p) {
            (Some(n), q) => if p < q <= toks.len() {
                read_args_spec(toks, q, acc.push(n))
            } else {
                (acc, q)
            },
            (None, q) => (acc, q),
        }
    }
}

pub enum STokV {
    LParen,
    RParen,
    Value(Seq<char>),
}

impl SExprToken {
    pub open spec fn view(&self) -> STokV {
        match self {
            SExprToken::LParen => STokV::LParen,
            SExprToken::RParen => STokV::RParen,
            SExprToken::Value(v) => STokV::Value(v@),
        }
    }
}

pub open spec fn stoks_view(v: Seq<SExprToken>) -> Seq<STokV> {
    v.map_values(|t: SExprToken| t@)
}

/// The token a run of word characters from `start` to `end` makes.
fn word(text: &str, start: usize, end: usize) -> (r: SExprToken)
    requires
        start <= end <= text@.len(),
    ensures
        r@ == STokV::Value(text@.subrange(start as int, end as int)),
{
    SExprToken::Value(text.substring_char(start, end).to_owned())
}

pub open spec fn is_break(c: char) -> bool {
    c == '(' || c == ')' || is_space(c)
}

/// The word begun at `start` (none when `start < 0`) and ending at `i`.
pub open spec fn pending_word(text: Seq<char>, start: int, i: int) -> Seq<STokV> {
    if start >= 0 {
        seq![STokV::Value(text.subrange(start, i))]
    } else {
        Seq::empty()
    }
}

/// The tokens of `text` from `i` on, when a word began at `start` (none when negative):
/// parentheses are tokens, white space separates words, anything else belongs to a word.
pub open spec fn sexpr_tokens_from(text: Seq<char>, i: int, start: int) -> Seq<STokV>
    decreases text.len() - i,
{
    if i < 0 || i >= text.len() {
        pending_word(text, start, text.len() as int)
    } else if is_break(text[i]) {
        pending_word(text, start, i) + (if text[i] == '(' {
            seq![STokV::LParen]
        } else if text[i] == ')' {
            seq![STokV::RParen]
        } else {
            Seq::empty()
        }) + sexpr_tokens_from(text, i + 1, -1)
    } else if start >= 0 {
        sexpr_tokens_from(text, i + 1, start)
    } else {
        sexpr_tokens_from(text, i + 1, i)
    }
}

impl SExpr {
    /// Splits s-expression text into parentheses and words; white space separates words.
    pub fn tokenize(text: &str) -> (r: Vec<SExprToken>)
        ensures
            stoks_view(r@) == sexpr_tokens_from(text@, 0, -1),
    {
        let n = text.unicode_len();
        let mut tokens: Vec<SExprToken> = Vec::new();
        let mut start: Option<usize> = None;
        let mut i: usize = 0;
        let ghost t = text@;
        proof {
            assert(stoks_view(tokens@) =~= Seq::<STokV>::empty());
            assert(Seq::<STokV>::empty() + sexpr_tokens_from(t, 0, -1) =~= sexpr_tokens_from(t, 0, -1));
        }
        while i < n
            invariant
                n == t.len(),
                t == text@,
                i <= n,
                start matches Some(s) ==> s < i,
                stoks_view(tokens@) + sexpr_tokens_from(
                    t,
                    i as int,
                    match start {
                        Some(s) => s as int,
                        None => -1,
                    },
                ) == sexpr_tokens_from(t, 0, -1),
            decreases n - i,
        {
            let ghost st: int = match start {
                Some(s) => s as int,
                None => -1,
            };
            let ghost before = stoks_view(tokens@);
            let c = text.get_char(i);
            if c == '(' || c == ')' || whitespace(c) {
                if let Some(s) = start {
                    tokens.push(word(text, s, i));
                    start = None;
                }
                let ghost mid = stoks_view(tokens@);
                proof {
                    assert(mid =~= before + pending_word(t, st, i as int));
                }
                if c == '(' {
                    tokens.push(SExprToken::LParen);
                } else if c == ')' {
                    tokens.push(SExprToken::RParen);
                }
                proof {
                    let punct = if c == '(' {
                        seq![STokV::LParen]
                    } else if c == ')' {
                        seq![STokV::RParen]
                    } else {
                        Seq::<STokV>::empty()
                    };
                    assert(stoks_view(tokens@) =~= mid + punct);
                    assert(stoks_view(tokens@) + sexpr_tokens_from(t, i + 1, -1) =~= before + (
                    pending_word(t, st, i as int) + punct + sexpr_tokens_from(t, i + 1, -1)));
                }
            } else if start.is_none() {
                start = Some(i);
            }
            i = i + 1;
        }
        let ghost st: int = match start {
            Some(s) => s as int,
            None => -1,
        };
        let ghost before = stoks_view(tokens@);
        if let Some(s) = start {
            tokens.push(word(text, s, n));
        }
        proof {
            assert(stoks_view(tokens@) =~= before + pending_word(t, st, n as int));
        }
        tokens
    }

    fn parse_rec(tokens: &Vec<SExprToken>, pos: &mut usize) -> (r: Option<SExpr>)
        requires
            *old(pos) <= tokens.len(),
        ensures
            *old(pos) <= *final(pos) <= tokens.len(),
            r is Some ==> *old(pos) < *final(pos),
            read_spec(stoks_view(tokens@), *old(pos) as int) == (opt_sexpr(r), *final(pos) as int),
        decreases tokens.len() - *old(pos),
    {
        let ghost tv = stoks_view(tokens@);
        if *pos >= tokens.len() {
            return None;
        }
        let at = *pos;
        *pos = *pos + 1;
        match &tokens[at] {
            SExprToken::RParen => None,
            SExprToken::Value(t) => Some(SExpr::Value(t.clone())),
            SExprToken::LParen => {
                let mut args: Vec<SExpr> = Vec::new();
                let mut done = false;
                proof {
                    assert(sexprs_view(args@) =~= Seq::<SExprV>::empty());
                }
                while !done
                    invariant
                        at < *pos <= tokens.len(),
                        at == *old(pos),
                        tv == stoks_view(tokens@),
                        !done ==> read_args_spec(tv, at + 1, seq![]) == read_args_spec(
                            tv,
                            *pos as int,
                            sexprs_view(args@),
                        ),
                        done ==> read_args_spec(tv, at + 1, seq![]) == (
                            sexprs_view(args@),
                            *pos as int,
                        ),
                    decreases tokens.len() - *pos + (if done {
                        0int
                    } else {
                        1int
                    }),
                {
                    let ghost before = sexprs_view(args@);
                    match SExpr::parse_rec(tokens, pos) {
                        Some(item) => {
                            args.push(item);
                            proof {
                                assert(sexprs_view(args@) =~= before.push(item@));
                            }
                        },
                        None => {
                            done = true;
                        },
                    }
                }
                if args.len() == 0 {
                    return None;
                }
                let ghost all = sexprs_view(args@);
                let head = args.remove(0);
                proof {
                    assert(sexprs_view(args@) =~= all.drop_first());
                }
                let (name, _) = head.release();
                Some(apply(name, args))
            },
        }
    }

    /// Reads one s-expression from text: a word, or `(head arg ...)`. Text that
    /// holds none reads as an empty value.
    pub fn parse(text: &str) -> (r: SExpr)
        ensures
            r@ == match read_spec(sexpr_tokens_from(text@, 0, -1), 0).0 {
                Some(s) => s,
                None => SExprV::Value(Seq::empty()),
            },
    {
        let tokens = SExpr::tokenize(text);
        let mut pos: usize = 0;
        match SExpr::parse_rec(&tokens, &mut pos) {
            Some(s) => s,
            None => {
                let r = SExpr::Value(String::new());
                proof {
                    assert(r@ == SExprV::Value(Seq::empty()));
                }
                r
            },
        }
    }
}

pub open spec fn texpr_sexpr(e: TExprV) -> SExprV
    decreases e, 0int,
{
    match e {
        TExprV::If { condition, true_block, else_block } => SExprV::Function(
            "if"@,
            seq![texpr_sexpr(*condition), tblock_sexpr(true_block)] + match else_block {
                Some(b) => seq![tblock_sexpr(b)],
                None => Seq::empty(),
            },
        ),
        TExprV::BinaryOperation { lhs, operator, rhs, .. } => SExprV::Function(
            binary_symbol(operator),
            seq![texpr_sexpr(*lhs), texpr_sexpr(*rhs)],
        ),
        TExprV::FunctionCall { name, arguments, .. } => SExprV::Function(
            name.lexeme,
            texprs_sexpr(arguments),
        ),
        TExprV::UnaryOperation { operator, rhs } => SExprV::Function(
            unary_symbol(operator),
            seq![texpr_sexpr(*rhs)],
        ),
        TExprV::Int(_) => SExprV::Value(type_text(Type::Int)),
        TExprV::Bool(_, _) => SExprV::Value(type_text(Type::Bool)),
        TExprV::List(elements, _) => SExprV::Function("list"@, texprs_sexpr(elements)),
        TExprV::Name(_, t) => SExprV::Value(type_text(t)),
    }
}

pub open spec fn texprs_sexpr(es: Seq<TExprV>) -> Seq<SExprV>
    decreases es, 0int,
{
    Seq::new(
        es.len(),
        |i: int|
            if 0 <= i < es.len() {
                texpr_sexpr(es[i])
            } else {
                SExprV::Value(Seq::empty())
            },
    )
}

/// A typed statement prints like its untyped form, but a `return` is headed by
/// the type of what it returns.
pub open spec fn tstmt_sexpr(s: TStmtV) -> SExprV
    decreases s, 0int,
{
    match s {
        TStmtV::VariableDeclaration { name, type_, value } => SExprV::Function(
            "variable_declaration"@,
            seq![SExprV::Value(typed_text(name, type_)), texpr_sexpr(value)],
        ),
        TStmtV::FunctionDefinition { name, type_, arg_list, body } => SExprV::Function(
            "function_define"@,
            seq![SExprV::Value(name.lexeme)] + params_sexpr(arg_list) + seq![
                tblock_sexpr(body),
                SExprV::Value("->"@ + type_text(type_)),
            ],
        ),
        TStmtV::Assignment { to, value } => SExprV::Function(
            "="@,
            seq![SExprV::Value(to.lexeme), texpr_sexpr(value)],
        ),
        TStmtV::While { condition, body } => SExprV::Function(
            "while"@,
            seq![texpr_sexpr(condition), tblock_sexpr(body)],
        ),
        TStmtV::Return(e) => SExprV::Function(type_text(texpr_type(e)), seq![texpr_sexpr(e)]),
        TStmtV::Expression(e) => texpr_sexpr(e),
    }
}

pub open spec fn tstmts_sexpr(b: Seq<TStmtV>) -> Seq<SExprV>
    decreases b, 0int,
{
    Seq::new(
        b.len(),
        |i: int|
            if 0 <= i < b.len() {
                tstmt_sexpr(b[i])
            } else {
                SExprV::Value(Seq::empty())
            },
    )
}

pub open spec fn tblock_sexpr(b: TBlockV) -> SExprV
    decreases b, 1int,
{
    join_block(tstmts_sexpr(b.body))
}

pub fn texprs_to_s_expr(es: &Vec<TypedExpression>) -> (r: Vec<SExpr>)
    ensures
        sexprs_view(r@) == texprs_sexpr(crate::typer::texprs_view(es@)),
    decreases es,
{
    let ghost ev = crate::typer::texprs_view(es@);
    let mut out: Vec<SExpr> = Vec::new();
    let mut i: usize = 0;
    proof {
        assert forall|j: int| 0 <= j < es.len() implies decreases_to!(*es => #[trigger] es[j]) by {
            assert(decreases_to!(*es => es[j]));
        }
    }
    while i < es.len()
        invariant
            i <= es.len(),
            ev == crate::typer::texprs_view(es@),
            forall|j: int| 0 <= j < es.len() ==> decreases_to!(*es => #[trigger] es[j]),
            sexprs_view(out@) =~= texprs_sexpr(ev).subrange(0, i as int),
        decreases es.len() - i,
    {
        let item = texpr_to_s_expr(&es[i]);
        push_item(&mut out, item);
        i = i + 1;
    }
    out
}

pub fn texpr_to_s_expr(e: &TypedExpression) -> (r: SExpr)
    ensures
        r@ == texpr_sexpr(e@),
    decreases e,
{
    match e {
        TypedExpression::If { condition, true_block, else_block } => {
            let mut args: Vec<SExpr> = Vec::new();
            push_item(&mut args, texpr_to_s_expr(condition));
            push_item(&mut args, tblock_to_s_expr(true_block));
            match else_block {
                Some(b) => {
                    proof {
                        assert(decreases_to!(*e => *else_block));
                    }
                    push_item(&mut args, tblock_to_s_expr(b));
                },
                None => {},
            }
            let r = apply(text_of("if"), args);
            proof {
                assert(sexprs_view(args@) =~= seq![texpr_sexpr(condition@), tblock_sexpr(true_block@)] + match e@->If_else_block {
                    Some(b) => seq![tblock_sexpr(b)],
                    None => Seq::empty(),
                });
            }
            r
        },
        TypedExpression::BinaryOperation { lhs, operator, rhs, .. } => {
            let mut args: Vec<SExpr> = Vec::new();
            push_item(&mut args, texpr_to_s_expr(lhs));
            push_item(&mut args, texpr_to_s_expr(rhs));
            proof {
                assert(sexprs_view(args@) =~= seq![texpr_sexpr(lhs@), texpr_sexpr(rhs@)]);
            }
            apply(operator.symbol(), args)
        },
        TypedExpression::FunctionCall { name, arguments, .. } => {
            proof {
                assert(e@->FunctionCall_arguments =~= crate::typer::texprs_view(arguments@));
            }
            let args = texprs_to_s_expr(arguments);
            apply(text_of(name.lexeme()), args)
        },
        TypedExpression::UnaryOperation { operator, rhs } => {
            let mut args: Vec<SExpr> = Vec::new();
            push_item(&mut args, texpr_to_s_expr(rhs));
            proof {
                assert(sexprs_view(args@) =~= seq![texpr_sexpr(rhs@)]);
            }
            apply(operator.symbol(), args)
        },
        TypedExpression::Int(_) => SExpr::Value(Type::Int.to_text()),
        TypedExpression::Bool(_, _) => SExpr::Value(Type::Bool.to_text()),
        TypedExpression::List(elements, _) => {
            proof {
                assert(e@->List_0 =~= crate::typer::texprs_view(elements@));
            }
            let args = texprs_to_s_expr(elements);
            apply(text_of("list"), args)
        },
        TypedExpression::Name(_, t) => SExpr::Value(t.to_text()),
    }
}

pub fn tstmt_to_s_expr(st: &TypedStatement) -> (r: SExpr)
    ensures
        r@ == tstmt_sexpr(st@),
    decreases st,
{
    match st {
        TypedStatement::VariableDeclaration { name, type_, value } => {
            let mut args: Vec<SExpr> = Vec::new();
            push_item(&mut args, SExpr::Value(typed_name(name, type_)));
            push_item(&mut args, texpr_to_s_expr(value));
            proof {
                assert(sexprs_view(args@) =~= seq![SExprV::Value(typed_text(name@, *type_)), texpr_sexpr(value@)]);
            }
            apply(text_of("variable_declaration"), args)
        },
        TypedStatement::FunctionDefinitionStatement(def) => {
            let mut args: Vec<SExpr> = Vec::new();
            push_item(&mut args, leaf(def.name.lexeme()));
            let mut i: usize = 0;
            while i < def.arg_list.len()
                invariant
                    i <= def.arg_list.len(),
                    sexprs_view(args@) =~= seq![SExprV::Value(def.name@.lexeme)] + params_sexpr(
                        crate::typed_ast::arg_views(def.arg_list@),
                    ).subrange(0, i as int),
                decreases def.arg_list.len() - i,
            {
                let (ref n, ref t) = def.arg_list[i];
                push_item(&mut args, SExpr::Value(typed_name(n, t)));
                i = i + 1;
            }
            proof {
                assert(decreases_to!(*st => st->FunctionDefinitionStatement_0));
            }
            let ghost params = params_sexpr(crate::typed_ast::arg_views(def.arg_list@));
            proof {
                assert(params.subrange(0, def.arg_list@.len() as int) =~= params);
            }
            push_item(&mut args, tblock_to_s_expr(&def.body));
            let mut arrow = text_of("->");
            let tt = def.type_.to_text();
            arrow.append(tt.as_str());
            push_item(&mut args, SExpr::Value(arrow));
            proof {
                assert(sexprs_view(args@) =~= seq![SExprV::Value(def.name@.lexeme)] + params + seq![
                    tblock_sexpr(def.body@),
                    SExprV::Value("->"@ + type_text(def.type_)),
                ]);
            }
            apply(text_of("function_define"), args)
        },
        TypedStatement::Assignment { to, value } => {
            let mut args: Vec<SExpr> = Vec::new();
            push_item(&mut args, leaf(to.lexeme()));
            push_item(&mut args, texpr_to_s_expr(value));
            proof {
                assert(sexprs_view(args@) =~= seq![SExprV::Value(to@.lexeme), texpr_sexpr(value@)]);
            }
            apply(text_of("="), args)
        },
        TypedStatement::While { condition, body } => {
            let mut args: Vec<SExpr> = Vec::new();
            push_item(&mut args, texpr_to_s_expr(condition));
            push_item(&mut args, tblock_to_s_expr(body));
            proof {
                assert(sexprs_view(args@) =~= seq![texpr_sexpr(condition@), tblock_sexpr(body@)]);
            }
            apply(text_of("while"), args)
        },
        TypedStatement::Return(e) => {
            let mut args: Vec<SExpr> = Vec::new();
            push_item(&mut args, texpr_to_s_expr(e));
            proof {
                assert(sexprs_view(args@) =~= seq![texpr_sexpr(e@)]);
            }
            let t = e.get_type();
            apply(t.to_text(), args)
        },
        TypedStatement::Expression(e) => texpr_to_s_expr(e),
    }
}

pub fn tblock_to_s_expr(b: &TypedBlock) -> (r: SExpr)
    ensures
        r@ == tblock_sexpr(b@),
    decreases b,
{
    let mut items: Vec<SExpr> = Vec::new();
    let mut i: usize = 0;
    let ghost bv = b@.body;
    proof {
        assert(decreases_to!(*b => b.body));
        assert forall|j: int| 0 <= j < b.body.len() implies decreases_to!(*b => #[trigger] b.body[j]) by {
            assert(decreases_to!(b.body => b.body[j]));
        }
        assert(bv.len() == b.body@.len());
    }
    while i < b.body.len()
        invariant
            i <= b.body.len(),
            bv == b@.body,
            bv.len() == b.body@.len(),
            forall|j: int| 0 <= j < b.body.len() ==> decreases_to!(*b => #[trigger] b.body[j]),
            sexprs_view(items@) =~= tstmts_sexpr(bv).subrange(0, i as int),
        decreases b.body.len() - i,
    {
        proof {
            assert(bv[i as int] == b.body@[i as int]@);
        }
        let item = tstmt_to_s_expr(&b.body[i]);
        push_item(&mut items, item);
        i = i + 1;
    }
    proof {
        assert(sexprs_view(items@) =~= tstmts_sexpr(bv));
    }
    join_items(items)
}

impl ToSExpr for TypedExpression {
    open spec fn s_expr_spec(&self) -> SExprV {
        texpr_sexpr(self@)
    }

    fn to_s_expr(&self) -> (r: SExpr) {
        texpr_to_s_expr(self)
    }
}

impl ToSExpr for TypedStatement {
    open spec fn s_expr_spec(&self) -> SExprV {
        tstmt_sexpr(self@)
    }

    fn to_s_expr(&self) -> (r: SExpr) {
        tstmt_to_s_expr(self)
    }
}

impl ToSExpr for TypedBlock {
    open spec fn s_expr_spec(&self) -> SExprV {
        tblock_sexpr(self@)
    }

    fn to_s_expr(&self) -> (r: SExpr) {
        tblock_to_s_expr(self)
    }
}

} // verus!
