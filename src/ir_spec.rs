use crate::ast::{BinaryOperator, UnaryOperator};
use crate::llvm::{
    flatten_all, load_line, mem_ir, mint_label, store_line, CountersV, ElemV, MemV,
};
use crate::token::TokenView;
use crate::typed_ast::{llvm_type_spec, texpr_type, TBlockV, TExprV, TStmtV, Type};
use vstd::prelude::*;

verus! {

/// Why lowering to IR stopped.
#[derive(Debug, Clone, Copy, PartialEq, Eq, Structural)]
pub enum IrError {
    /// A list type or value, which has no IR form.
    UnsupportedType,
    /// A name category whose count cannot grow any further.
    NamesExhausted,
}

/// What lowering one node gives: its result, the elements it emits, and the
/// counters after it.
pub type Emit<T> = Result<(T, Seq<ElemV>, CountersV), IrError>;

pub open spec fn line(s: Seq<char>) -> ElemV {
    ElemV::Elem(s)
}

/// `texts` joined with `sep` between neighbours.
pub open spec fn join_with(texts: Seq<Seq<char>>, sep: Seq<char>) -> Seq<char>
    decreases texts.len(),
{
    if texts.len() == 0 {
        Seq::empty()
    } else if texts.len() == 1 {
        texts[0]
    } else {
        join_with(texts.drop_last(), sep) + sep + texts.last()
    }
}

pub open spec fn label_line(l: Seq<char>) -> ElemV {
    line(l + ":"@)
}

pub open spec fn br_line(l: Seq<char>) -> ElemV {
    line("br label %"@ + l)
}

pub open spec fn cond_br_line(c: MemV, yes: Seq<char>, no: Seq<char>) -> ElemV {
    line("br "@ + mem_ir(c, true) + ", label %"@ + yes + ", label %"@ + no)
}

pub open spec fn alloca_line(name: Seq<char>, t: Type) -> ElemV {
    line("%"@ + name + " = alloca "@ + llvm_type_spec(t))
}

/// The IR instruction and the counter category of a binary operator.
pub open spec fn opcode(op: BinaryOperator) -> (Seq<char>, Seq<char>) {
    match op {
        BinaryOperator::Add => ("add"@, "add"@),
        BinaryOperator::Equals => ("icmp eq"@, "eq"@),
        BinaryOperator::GreaterThan => ("icmp sgt"@, "gt"@),
        BinaryOperator::And => ("and"@, "and"@),
        BinaryOperator::Or => ("or"@, "or"@),
    }
}

/// The counter category of a unary operator's result.
pub open spec fn unary_category(op: UnaryOperator) -> Seq<char> {
    match op {
        UnaryOperator::Sub => "sub"@,
        UnaryOperator::Not => "not"@,
    }
}

/// `%d = sub i32 0, v` for a negation, `%d = xor i1 v, 1` for a logical not.
pub open spec fn unary_line(op: UnaryOperator, dest: MemV, operand: MemV) -> Seq<char> {
    match op {
        UnaryOperator::Sub => mem_ir(dest, false) + " = sub i32 0, "@ + mem_ir(operand, false),
        UnaryOperator::Not => mem_ir(dest, false) + " = xor i1 "@ + mem_ir(operand, false)
            + ", 1"@,
    }
}

/// `%d = <opcode> <T> a, b`, with `T` the left operand's type.
pub open spec fn binary_line(op: BinaryOperator, dest: MemV, lt: Type, a: MemV, b: MemV) -> Seq<char> {
    mem_ir(dest, false) + " = "@ + opcode(op).0 + " "@ + llvm_type_spec(lt) + " "@ + mem_ir(
        a,
        false,
    ) + ", "@ + mem_ir(b, false)
}

/// `%d = call <T> @name(<typed args joined by ",">)`
pub open spec fn call_line(dest: MemV, t: Type, name: Seq<char>, args: Seq<Seq<char>>) -> Seq<char> {
    mem_ir(dest, false) + " = call "@ + llvm_type_spec(t) + " @"@ + name + "("@ + join_with(
        args,
        ","@,
    ) + ")"@
}

/// `ret <T> v`
pub open spec fn ret_line(m: MemV) -> Seq<char> {
    "ret "@ + mem_ir(m, true)
}

/// `define <T> @name(<T> %_p, ...) {`
pub open spec fn header_line(t: Type, name: Seq<char>, params: Seq<Seq<char>>) -> Seq<char> {
    "define "@ + llvm_type_spec(t) + " @"@ + name + "("@ + join_with(params, ", "@) + ") {"@
}

/// `<T> %_p`: how a parameter arrives.
pub open spec fn param_decl(name: Seq<char>, t: Type) -> Seq<char> {
    llvm_type_spec(t) + " %_"@ + name
}

/// How each parameter arrives, in order.
pub open spec fn param_decls(args: Seq<(TokenView, Type)>) -> Seq<Seq<char>> {
    args.map_values(|a: (TokenView, Type)| param_decl(a.0.lexeme, a.1))
}

/// A slot for each parameter and the store of its incoming value into it.
pub open spec fn param_slots(args: Seq<(TokenView, Type)>) -> Seq<ElemV>
    decreases args.len(),
{
    if args.len() == 0 {
        Seq::empty()
    } else {
        param_slots(args.drop_last()) + seq![
            alloca_line(args.last().0.lexeme, args.last().1),
            line(
                store_line(
                    args.last().0.lexeme,
                    args.last().1,
                    MemV::Temp("_"@ + args.last().0.lexeme, args.last().1),
                ),
            ),
        ]
    }
}

pub open spec fn any_list_param(args: Seq<(TokenView, Type)>) -> bool {
    exists|i: int| 0 <= i < args.len() && (#[trigger] args[i]).1 is List
}

/// Stores a block's final value, if it has one, into the slot `slot`.
pub open spec fn store_final(slot: Seq<char>, t: Type, m: Option<MemV>) -> Seq<ElemV> {
    match m {
        Some(v) => seq![line(store_line(slot, t, v))],
        None => Seq::empty(),
    }
}

/// Loads the variable `name` into a fresh temp named after it.
pub open spec fn lower_name_spec(c: CountersV, name: Seq<char>, ty: Type) -> Emit<MemV> {
    if ty is List {
        Err(IrError::UnsupportedType)
    } else {
        match mint_label(c, name) {
            None => Err(IrError::NamesExhausted),
            Some((l, c1)) => {
                let into = MemV::Temp(l, ty);
                Ok((into, seq![line(load_line(name, ty, into))], c1))
            },
        }
    }
}

/// Lowers an expression: literals are constants; every other node emits its
/// operands' code and then its own instruction into a fresh temp.
pub open spec fn lower_expr_spec(c: CountersV, e: TExprV) -> Emit<MemV>
    decreases e, 1int,
{
    match e {
        TExprV::Int(t) => Ok((MemV::Const(t.lexeme, Type::Int), Seq::empty(), c)),
        TExprV::Bool(b, _) => Ok(
            (
                MemV::Const(
                    if b {
                        "1"@
                    } else {
                        "0"@
                    },
                    Type::Bool,
                ),
                Seq::empty(),
                c,
            ),
        ),
        TExprV::List(_, _) => Err(IrError::UnsupportedType),
        TExprV::Name(t, ty) => lower_name_spec(c, t.lexeme, ty),
        TExprV::UnaryOperation { .. } => lower_unary_spec(c, e),
        TExprV::BinaryOperation { .. } => lower_binary_spec(c, e),
        TExprV::FunctionCall { .. } => lower_call_spec(c, e),
        TExprV::If { .. } => lower_if_spec(c, e),
    }
}

pub open spec fn lower_unary_spec(c: CountersV, e: TExprV) -> Emit<MemV>
    decreases e, 0int,
{
    match e {
        TExprV::UnaryOperation { operator, rhs } => {
            let rt = texpr_type(*rhs);
            if rt is List {
                Err(IrError::UnsupportedType)
            } else {
                match lower_expr_spec(c, *rhs) {
                    Err(err) => Err(err),
                    Ok((m, es, c1)) => match mint_label(c1, unary_category(operator)) {
                        None => Err(IrError::NamesExhausted),
                        Some((l, c2)) => {
                            let dest = MemV::Temp(l, rt);
                            Ok((dest, es.push(line(unary_line(operator, dest, m))), c2))
                        },
                    },
                }
            }
        },
        _ => Err(IrError::UnsupportedType),
    }
}

pub open spec fn lower_binary_spec(c: CountersV, e: TExprV) -> Emit<MemV>
    decreases e, 0int,
{
    match e {
        TExprV::BinaryOperation { lhs, operator, rhs, type_ } => {
            let lt = texpr_type(*lhs);
            if lt is List || type_ is List {
                Err(IrError::UnsupportedType)
            } else {
                match lower_expr_spec(c, *lhs) {
                    Err(err) => Err(err),
                    Ok((m1, es1, c1)) => match lower_expr_spec(c1, *rhs) {
                        Err(err) => Err(err),
                        Ok((m2, es2, c2)) => match mint_label(c2, opcode(operator).1) {
                            None => Err(IrError::NamesExhausted),
                            Some((l, c3)) => {
                                let dest = MemV::Temp(l, type_);
                                Ok(
                                    (
                                        dest,
                                        (es1 + es2).push(
                                            line(binary_line(operator, dest, lt, m1, m2)),
                                        ),
                                        c3,
                                    ),
                                )
                            },
                        },
                    },
                }
            }
        },
        _ => Err(IrError::UnsupportedType),
    }
}

pub open spec fn lower_call_spec(c: CountersV, e: TExprV) -> Emit<MemV>
    decreases e, 0int,
{
    match e {
        TExprV::FunctionCall { name, arguments, type_ } => if type_ is List {
            Err(IrError::UnsupportedType)
        } else {
            match lower_args_spec(c, arguments) {
                Err(err) => Err(err),
                Ok((texts, es, c1)) => match mint_label(c1, "function_"@ + name.lexeme) {
                    None => Err(IrError::NamesExhausted),
                    Some((l, c2)) => {
                        let dest = MemV::Temp(l, type_);
                        Ok((dest, es.push(line(call_line(dest, type_, name.lexeme, texts))), c2))
                    },
                },
            }
        },
        _ => Err(IrError::UnsupportedType),
    }
}

/// An `if` yields its value through a stack slot: the slot, the condition's code,
/// a conditional branch, each branch's block storing its final value, and a load
/// after the join label.
pub open spec fn lower_if_spec(c: CountersV, e: TExprV) -> Emit<MemV>
    decreases e, 0int,
{
    match e {
        TExprV::If { condition, true_block, else_block } => {
            let tt = true_block.type_;
            if tt is List {
                Err(IrError::UnsupportedType)
            } else {
                match mint_label(c, "if_ret_var"@) {
                    None => Err(IrError::NamesExhausted),
                    Some((rv, c1)) => match lower_expr_spec(c1, *condition) {
                        Err(err) => Err(err),
                        Ok((mc, esc, c2)) => match mint_label(c2, "if_true"@) {
                            None => Err(IrError::NamesExhausted),
                            Some((it, c3)) => match mint_label(c3, "if_end"@) {
                                None => Err(IrError::NamesExhausted),
                                Some((iend, c4)) => match mint_label(c4, "if_else"@) {
                                    None => Err(IrError::NamesExhausted),
                                    Some((ie, c5)) => match lower_block_spec(c5, true_block) {
                                        Err(err) => Err(err),
                                        Ok((tes, tfinal, c6)) => match lower_else_spec(
                                            c6,
                                            rv,
                                            else_block,
                                        ) {
                                            Err(err) => Err(err),
                                            Ok((ees, c7)) => match mint_label(c7, rv) {
                                                None => Err(IrError::NamesExhausted),
                                                Some((l, c8)) => {
                                                    let tmp = MemV::Temp(l, tt);
                                                    let body = seq![alloca_line(rv, tt)] + esc
                                                        + seq![
                                                        cond_br_line(mc, it, ie),
                                                        label_line(it),
                                                        ElemV::Scope(tes),
                                                    ] + store_final(rv, tt, tfinal) + seq![
                                                        br_line(iend),
                                                        label_line(ie),
                                                    ] + ees + seq![
                                                        br_line(iend),
                                                        label_line(iend),
                                                        line(load_line(rv, tt, tmp)),
                                                    ];
                                                    Ok((tmp, seq![ElemV::Scope(body)], c8))
                                                },
                                            },
                                        },
                                    },
                                },
                            },
                        },
                    },
                }
            }
        },
        _ => Err(IrError::UnsupportedType),
    }
}

/// The else branch of an `if` whose result slot is `slot`: its scope and the store
/// of its final value.
pub open spec fn lower_else_spec(c: CountersV, slot: Seq<char>, else_block: Option<TBlockV>) -> Result<
    (Seq<ElemV>, CountersV),
    IrError,
>
    decreases else_block, 0int,
{
    match else_block {
        None => Ok((Seq::empty(), c)),
        Some(eb) => if eb.type_ is List {
            Err(IrError::UnsupportedType)
        } else {
            match lower_block_spec(c, eb) {
                Err(err) => Err(err),
                Ok((ees, efinal, c1)) => Ok(
                    (seq![ElemV::Scope(ees)] + store_final(slot, eb.type_, efinal), c1),
                ),
            }
        },
    }
}

/// Arguments, left to right: each one's typed operand text, and what they emit.
pub open spec fn lower_args_spec(c: CountersV, es: Seq<TExprV>) -> Result<
    (Seq<Seq<char>>, Seq<ElemV>, CountersV),
    IrError,
>
    decreases es, 0int,
{
    if es.len() == 0 {
        Ok((Seq::empty(), Seq::empty(), c))
    } else {
        match lower_args_spec(c, es.drop_last()) {
            Err(err) => Err(err),
            Ok((texts, es1, c1)) => match lower_expr_spec(c1, es.last()) {
                Err(err) => Err(err),
                Ok((m, es2, c2)) => Ok((texts.push(mem_ir(m, true)), es1 + es2, c2)),
            },
        }
    }
}

/// Lowers a statement: only an expression statement has a value.
pub open spec fn lower_stmt_spec(c: CountersV, s: TStmtV) -> Emit<Option<MemV>>
    decreases s, 1int,
{
    match s {
        TStmtV::FunctionDefinition { .. } => lower_function_spec(c, s),
        TStmtV::VariableDeclaration { .. } => lower_declaration_spec(c, s),
        TStmtV::Assignment { .. } => lower_assignment_spec(c, s),
        TStmtV::While { .. } => lower_while_spec(c, s),
        TStmtV::Return(_) => lower_return_spec(c, s),
        TStmtV::Expression(e) => match lower_expr_spec(c, e) {
            Err(err) => Err(err),
            Ok((m, es, c1)) => Ok((Some(m), es, c1)),
        },
    }
}

/// `let x: T = e`: the value's code, a slot for `x`, and the store into it.
pub open spec fn lower_declaration_spec(c: CountersV, s: TStmtV) -> Emit<Option<MemV>>
    decreases s, 0int,
{
    match s {
        TStmtV::VariableDeclaration { name, type_, value } => if type_ is List {
            Err(IrError::UnsupportedType)
        } else {
            match lower_expr_spec(c, value) {
                Err(err) => Err(err),
                Ok((m, es, c1)) => Ok(
                    (
                        None,
                        es.push(alloca_line(name.lexeme, type_)).push(
                            line(store_line(name.lexeme, type_, m)),
                        ),
                        c1,
                    ),
                ),
            }
        },
        _ => Err(IrError::UnsupportedType),
    }
}

/// `x = e`: the value's code and the store into `x`'s slot, typed by the value.
pub open spec fn lower_assignment_spec(c: CountersV, s: TStmtV) -> Emit<Option<MemV>>
    decreases s, 0int,
{
    match s {
        TStmtV::Assignment { to, value } => {
            let t = texpr_type(value);
            if t is List {
                Err(IrError::UnsupportedType)
            } else {
                match lower_expr_spec(c, value) {
                    Err(err) => Err(err),
                    Ok((m, es, c1)) => Ok((None, es.push(line(store_line(to.lexeme, t, m))), c1)),
                }
            }
        },
        _ => Err(IrError::UnsupportedType),
    }
}

/// `return e`: the value's code and `ret`.
pub open spec fn lower_return_spec(c: CountersV, s: TStmtV) -> Emit<Option<MemV>>
    decreases s, 0int,
{
    match s {
        TStmtV::Return(e) => match lower_expr_spec(c, e) {
            Err(err) => Err(err),
            Ok((m, es, c1)) => Ok((None, es.push(line(ret_line(m))), c1)),
        },
        _ => Err(IrError::UnsupportedType),
    }
}

/// A function: its header, a scope with a slot for each parameter, a scope with
/// its body, and the closing `}`.
pub open spec fn lower_function_spec(c: CountersV, s: TStmtV) -> Emit<Option<MemV>>
    decreases s, 0int,
{
    match s {
        TStmtV::FunctionDefinition { name, type_, arg_list, body } => if type_ is List
            || any_list_param(arg_list) {
            Err(IrError::UnsupportedType)
        } else {
            match lower_block_spec(c, body) {
                Err(err) => Err(err),
                Ok((bes, _, c1)) => Ok(
                    (
                        None,
                        seq![
                            line(header_line(type_, name.lexeme, param_decls(arg_list))),
                            ElemV::Scope(param_slots(arg_list)),
                            ElemV::Scope(bes),
                            line("}"@),
                        ],
                        c1,
                    ),
                ),
            }
        },
        _ => Err(IrError::UnsupportedType),
    }
}

/// A loop: a scope that branches to its header label, tests the condition there,
/// runs the body and branches back.
pub open spec fn lower_while_spec(c: CountersV, s: TStmtV) -> Emit<Option<MemV>>
    decreases s, 0int,
{
    match s {
        TStmtV::While { condition, body } => match mint_label(c, "while"@) {
            None => Err(IrError::NamesExhausted),
            Some((w, c1)) => match lower_expr_spec(c1, condition) {
                Err(err) => Err(err),
                Ok((mc, esc, c2)) => match mint_label(c2, "while_true"@) {
                    None => Err(IrError::NamesExhausted),
                    Some((wt, c3)) => match mint_label(c3, "while_end"@) {
                        None => Err(IrError::NamesExhausted),
                        Some((we, c4)) => match lower_block_spec(c4, body) {
                            Err(err) => Err(err),
                            Ok((bes, _, c5)) => {
                                let ws = seq![br_line(w), label_line(w)] + esc + seq![
                                    cond_br_line(mc, wt, we),
                                    label_line(wt),
                                    ElemV::Scope(bes),
                                    br_line(w),
                                    label_line(we),
                                ];
                                Ok((None, seq![ElemV::Scope(ws)], c5))
                            },
                        },
                    },
                },
            },
        },
        _ => Err(IrError::UnsupportedType),
    }
}

/// Statements in order: what they emit, and the value of the last one.
pub open spec fn lower_stmts_spec(c: CountersV, ss: Seq<TStmtV>) -> Result<
    (Seq<ElemV>, Option<MemV>, CountersV),
    IrError,
>
    decreases ss, 0int,
{
    if ss.len() == 0 {
        Ok((Seq::empty(), None, c))
    } else {
        match lower_stmts_spec(c, ss.drop_last()) {
            Err(err) => Err(err),
            Ok((es1, _, c1)) => match lower_stmt_spec(c1, ss.last()) {
                Err(err) => Err(err),
                Ok((mv, es2, c2)) => Ok((es1 + es2, mv, c2)),
            },
        }
    }
}

pub open spec fn lower_block_spec(c: CountersV, b: TBlockV) -> Result<
    (Seq<ElemV>, Option<MemV>, CountersV),
    IrError,
>
    decreases b, 0int,
{
    lower_stmts_spec(c, b.body)
}

/// The IR text of a typed program: its statements lowered with fresh counters, flattened.
pub open spec fn convert_spec(ast: Seq<TStmtV>) -> Result<Seq<Seq<char>>, IrError> {
    match lower_stmts_spec(Seq::empty(), ast) {
        Err(err) => Err(err),
        Ok((es, _, _)) => Ok(flatten_all(es)),
    }
}

/// Once a prefix of the arguments fails to lower, so do all of them, with that error.
pub proof fn lemma_args_err_prefix(c: CountersV, es: Seq<TExprV>, k: int)
    requires
        0 <= k <= es.len(),
        lower_args_spec(c, es.subrange(0, k)) is Err,
    ensures
        lower_args_spec(c, es) == lower_args_spec(c, es.subrange(0, k)),
    decreases es.len() - k,
{
    if k == es.len() {
        assert(es.subrange(0, k) =~= es);
    } else {
        let d = es.drop_last();
        assert(d.subrange(0, k) =~= es.subrange(0, k));
        lemma_args_err_prefix(c, d, k);
    }
}

/// Once a prefix of the statements fails to lower, so do all of them, with that error.
pub proof fn lemma_stmts_err_prefix(c: CountersV, ss: Seq<TStmtV>, k: int)
    requires
        0 <= k <= ss.len(),
        lower_stmts_spec(c, ss.subrange(0, k)) is Err,
    ensures
        lower_stmts_spec(c, ss) == lower_stmts_spec(c, ss.subrange(0, k)),
    decreases ss.len() - k,
{
    if k == ss.len() {
        assert(ss.subrange(0, k) =~= ss);
    } else {
        let d = ss.drop_last();
        assert(d.subrange(0, k) =~= ss.subrange(0, k));
        lemma_stmts_err_prefix(c, d, k);
    }
}


pub open spec fn all_functions(ss: Seq<TStmtV>) -> bool {
    forall|i: int| 0 <= i < ss.len() ==> (#[trigger] ss[i]) is FunctionDefinition
}

/// A program of function definitions lowers to four elements per function, in
/// order: its `define … {` header, a scope, a scope, and the closing `}`; every
/// opening brace is closed at the same level.
pub proof fn lemma_functions_are_bracketed(c: CountersV, ss: Seq<TStmtV>)
    requires
        all_functions(ss),
        lower_stmts_spec(c, ss) is Ok,
    ensures
        ({
            let es = lower_stmts_spec(c, ss)->Ok_0.0;
            &&& es.len() == 4 * ss.len()
            &&& forall|k: int|
                0 <= k < ss.len() ==> {
                    &&& #[trigger] es[4 * k] == line(
                        header_line(
                            ss[k]->FunctionDefinition_type_,
                            ss[k]->FunctionDefinition_name.lexeme,
                            param_decls(ss[k]->FunctionDefinition_arg_list),
                        ),
                    )
                    &&& es[4 * k + 1] is Scope
                    &&& es[4 * k + 2] is Scope
                    &&& es[4 * k + 3] == line("}"@)
                }
        }),
    decreases ss.len(),
{
    if ss.len() > 0 {
        let d = ss.drop_last();
        assert(all_functions(d)) by {
            assert forall|i: int| 0 <= i < d.len() implies (#[trigger] d[i]) is FunctionDefinition by {
                assert(d[i] == ss[i]);
            }
        }
        assert(ss[ss.len() - 1] is FunctionDefinition);
        lemma_functions_are_bracketed(c, d);
        let prev = lower_stmts_spec(c, d)->Ok_0;
        let last = lower_stmt_spec(prev.2, ss.last())->Ok_0;
        let es = lower_stmts_spec(c, ss)->Ok_0.0;
        assert(es == prev.0 + last.1);
        assert(last.1.len() == 4);
        assert forall|k: int| 0 <= k < ss.len() implies {
            &&& #[trigger] es[4 * k] == line(
                header_line(
                    ss[k]->FunctionDefinition_type_,
                    ss[k]->FunctionDefinition_name.lexeme,
                    param_decls(ss[k]->FunctionDefinition_arg_list),
                ),
            )
            &&& es[4 * k + 1] is Scope
            &&& es[4 * k + 2] is Scope
            &&& es[4 * k + 3] == line("}"@)
        } by {
            if k < ss.len() - 1 {
                assert(d[k] == ss[k]);
                assert(es[4 * k] == prev.0[4 * k]);
                assert(es[4 * k + 1] == prev.0[4 * k + 1]);
                assert(es[4 * k + 2] == prev.0[4 * k + 2]);
                assert(es[4 * k + 3] == prev.0[4 * k + 3]);
            } else {
                assert(es[4 * k] == last.1[0]);
                assert(es[4 * k + 1] == last.1[1]);
                assert(es[4 * k + 2] == last.1[2]);
                assert(es[4 * k + 3] == last.1[3]);
            }
        }
    }
}

} // verus!
