use crate::ast::{BinaryOperator, UnaryOperator};
use crate::ir_spec::{
    alloca_line, any_list_param, binary_line, br_line, call_line, cond_br_line, convert_spec,
    header_line, join_with, label_line, lemma_args_err_prefix, lemma_stmts_err_prefix, line,
    lower_args_spec, lower_binary_spec, lower_block_spec, lower_call_spec, lower_else_spec,
    lower_expr_spec, lower_function_spec, lower_if_spec, lower_name_spec, lower_stmt_spec,
    lower_stmts_spec, lower_unary_spec, lower_while_spec, lower_declaration_spec,
    lower_assignment_spec, lower_return_spec, opcode, param_decl, param_decls,
    param_slots, ret_line, store_final, unary_category, unary_line, Emit, IrError,
};
use crate::llvm::{
    elems_view, flatten_all, load_line, mem_ir, mem_type, mint_label, store_line, strings_view,
    Counters, CountersV, ElemV, Element, MemV, MemoryValue, Variable,
};
use crate::token::{Token, TokenView};
use crate::typed_ast::{
    arg_views, llvm_type_spec, texpr_type, TBlockV, TExprV, TStmtV, Type, TypedBlock,
    TypedExpression, TypedStatement,
};
use crate::typer::{texprs_view, tstmts_view};
use vstd::prelude::*;
use vstd::string::*;

verus! {

fn text_of(s: &str) -> (r: String)
    ensures
        r@ == s@,
{
    String::from_str(s)
}

/// The IR type of `t`; lists have none.
fn lower_type(t: &Type) -> (r: Result<String, IrError>)
    ensures
        t is List ==> r == Err::<String, IrError>(IrError::UnsupportedType),
        !(t is List) ==> (r matches Ok(s) && s@ == llvm_type_spec(*t)),
{
    match t {
        Type::List(_) => Err(IrError::UnsupportedType),
        _ => Ok(t.llvm_type()),
    }
}

fn emit(scope: &mut Vec<Element>, text: String)
    ensures
        elems_view(final(scope)@) == elems_view(old(scope)@).push(line(text@)),
{
    let ghost before = elems_view(scope@);
    scope.push(Element::Elem(text));
    proof {
        assert(elems_view(scope@) =~= before.push(line(text@)));
    }
}

fn emit_scope(scope: &mut Vec<Element>, inner: Vec<Element>)
    ensures
        elems_view(final(scope)@) == elems_view(old(scope)@).push(ElemV::Scope(elems_view(inner@))),
{
    let ghost before = elems_view(scope@);
    let ghost iv = elems_view(inner@);
    let e = Element::Scope(inner);
    proof {
        assert(e@->Scope_0 =~= iv);
    }
    scope.push(e);
    proof {
        assert(elems_view(scope@) =~= before.push(ElemV::Scope(iv)));
    }
}

fn label_text(l: &String) -> (r: String)
    ensures
        r@ == l@ + ":"@,
{
    let mut s = l.clone();
    s.append(":");
    s
}

fn br_text(l: &String) -> (r: String)
    ensures
        r@ == "br label %"@ + l@,
{
    let mut s = text_of("br label %");
    s.append(l.as_str());
    s
}

fn cond_br_text(c: &MemoryValue, yes: &String, no: &String) -> (r: String)
    requires
        !(mem_type(c@) is List),
    ensures
        line(r@) == cond_br_line(c@, yes@, no@),
{
    let mut s = text_of("br ");
    let ct = c.to_ir(true);
    s.append(ct.as_str());
    s.append(", label %");
    s.append(yes.as_str());
    s.append(", label %");
    s.append(no.as_str());
    s
}

fn alloca_text(name: &str, t: &Type) -> (r: String)
    requires
        !(t is List),
    ensures
        line(r@) == alloca_line(name@, *t),
{
    let mut s = text_of("%");
    s.append(name);
    s.append(" = alloca ");
    let tt = t.llvm_type();
    s.append(tt.as_str());
    s
}

/// `texts` joined with `sep`.
fn join_texts(texts: &Vec<String>, sep: &str) -> (r: String)
    ensures
        r@ == join_with(strings_view(texts@), sep@),
{
    let ghost tv = strings_view(texts@);
    let mut s = String::new();
    let mut i: usize = 0;
    proof {
        assert(tv.subrange(0, 0) =~= Seq::<Seq<char>>::empty());
    }
    while i < texts.len()
        invariant
            i <= texts.len(),
            tv == strings_view(texts@),
            s@ == join_with(tv.subrange(0, i as int), sep@),
        decreases texts.len() - i,
    {
        let ghost sub = tv.subrange(0, i + 1);
        proof {
            assert(sub.drop_last() =~= tv.subrange(0, i as int));
        }
        if i > 0 {
            s.append(sep);
        } else {
            proof {
                assert(tv.subrange(0, 0).len() == 0);
            }
        }
        s.append(texts[i].as_str());
        i = i + 1;
    }
    proof {
        assert(tv.subrange(0, texts.len() as int) =~= tv);
    }
    s
}

fn unary_text(op: UnaryOperator, dest: &MemoryValue, operand: &MemoryValue) -> (r: String)
    requires
        !(mem_type(dest@) is List),
        !(mem_type(operand@) is List),
    ensures
        r@ == unary_line(op, dest@, operand@),
{
    let mut text = dest.to_ir(false);
    let v = operand.to_ir(false);
    match op {
        UnaryOperator::Sub => {
            text.append(" = sub i32 0, ");
            text.append(v.as_str());
        },
        UnaryOperator::Not => {
            text.append(" = xor i1 ");
            text.append(v.as_str());
            text.append(", 1");
        },
    }
    text
}

fn unary_cat(op: UnaryOperator) -> (r: &'static str)
    ensures
        r@ == unary_category(op),
{
    match op {
        UnaryOperator::Sub => "sub",
        UnaryOperator::Not => "not",
    }
}

/// The instruction and counter category of `op`.
fn op_names(op: BinaryOperator) -> (r: (&'static str, &'static str))
    ensures
        r.0@ == opcode(op).0,
        r.1@ == opcode(op).1,
{
    match op {
        BinaryOperator::Add => ("add", "add"),
        BinaryOperator::Equals => ("icmp eq", "eq"),
        BinaryOperator::GreaterThan => ("icmp sgt", "gt"),
        BinaryOperator::And => ("and", "and"),
        BinaryOperator::Or => ("or", "or"),
    }
}

fn binary_text(op: BinaryOperator, dest: &MemoryValue, lt: &Type, a: &MemoryValue, b: &MemoryValue) -> (r: String)
    requires
        !(mem_type(dest@) is List),
        !(lt is List),
        !(mem_type(a@) is List),
        !(mem_type(b@) is List),
    ensures
        r@ == binary_line(op, dest@, *lt, a@, b@),
{
    let (instruction, _) = op_names(op);
    let mut text = dest.to_ir(false);
    text.append(" = ");
    text.append(instruction);
    text.append(" ");
    let t = lt.llvm_type();
    text.append(t.as_str());
    text.append(" ");
    let av = a.to_ir(false);
    text.append(av.as_str());
    text.append(", ");
    let bv = b.to_ir(false);
    text.append(bv.as_str());
    text
}

fn call_text(dest: &MemoryValue, t: &Type, name: &str, args: &Vec<String>) -> (r: String)
    requires
        !(mem_type(dest@) is List),
        !(t is List),
    ensures
        r@ == call_line(dest@, *t, name@, strings_view(args@)),
{
    let mut text = dest.to_ir(false);
    text.append(" = call ");
    let ts = t.llvm_type();
    text.append(ts.as_str());
    text.append(" @");
    text.append(name);
    text.append("(");
    let joined = join_texts(args, ",");
    text.append(joined.as_str());
    text.append(")");
    text
}

fn ret_text(m: &MemoryValue) -> (r: String)
    requires
        !(mem_type(m@) is List),
    ensures
        r@ == ret_line(m@),
{
    let mut text = String::from_str("ret ");
    let v = m.to_ir(true);
    text.append(v.as_str());
    text
}

fn param_text(name: &str, t: &Type) -> (r: String)
    requires
        !(t is List),
    ensures
        r@ == param_decl(name@, *t),
{
    let mut text = t.llvm_type();
    text.append(" %_");
    text.append(name);
    text
}

fn header_text(t: &Type, name: &str, params: &Vec<String>) -> (r: String)
    requires
        !(t is List),
    ensures
        r@ == header_line(*t, name@, strings_view(params@)),
{
    let mut text = String::from_str("define ");
    let ts = t.llvm_type();
    text.append(ts.as_str());
    text.append(" @");
    text.append(name);
    text.append("(");
    let joined = join_texts(params, ", ");
    text.append(joined.as_str());
    text.append(") {");
    text
}


pub open spec fn opt_mem(m: Option<MemoryValue>) -> Option<MemV> {
    match m {
        Some(v) => Some(v@),
        None => None,
    }
}

/// `r` and the elements appended to `before` (giving `after`) are what lowering
/// `expected` describes, with the counters ending at `c`.
pub open spec fn expr_outcome(
    expected: Emit<MemV>,
    r: Result<MemoryValue, IrError>,
    before: Seq<ElemV>,
    after: Seq<ElemV>,
    c: CountersV,
) -> bool {
    match expected {
        Ok((m, out, c2)) => r matches Ok(v) && v@ == m && after == before + out && c == c2,
        Err(err) => r matches Err(x) && x == err,
    }
}

/// As `expr_outcome`, for a statement, whose value is optional.
pub open spec fn stmt_outcome(
    expected: Emit<Option<MemV>>,
    r: Result<Option<MemoryValue>, IrError>,
    before: Seq<ElemV>,
    after: Seq<ElemV>,
    c: CountersV,
) -> bool {
    match expected {
        Ok((mv, out, c2)) => r matches Ok(m) && opt_mem(m) == mv && after == before + out && c
            == c2,
        Err(err) => r matches Err(x) && x == err,
    }
}

/// Whether some parameter has a list type.
fn has_list_param(args: &Vec<(Token, Type)>) -> (r: bool)
    ensures
        r == any_list_param(arg_views(args@)),
{
    let ghost av = arg_views(args@);
    let mut i: usize = 0;
    while i < args.len()
        invariant
            i <= args.len(),
            av == arg_views(args@),
            av.len() == args.len(),
            forall|j: int| 0 <= j < i ==> !(#[trigger] av[j].1 is List),
        decreases args.len() - i,
    {
        if let Type::List(_) = args[i].1 {
            proof {
                assert(av[i as int].1 is List);
            }
            return true;
        }
        i = i + 1;
    }
    false
}

/// Lowers typed statements to IR elements, naming temps and labels through its counters.
pub struct IrBuilder {
    counters: Counters,
}

impl IrBuilder {
    pub closed spec fn counters_view(&self) -> CountersV {
        self.counters.view()
    }

    pub fn new() -> (r: Self)
        ensures
            r.counters_view() == CountersV::empty(),
    {
        Self { counters: Counters::new() }
    }

    /// The next name of category `cat`, without a `%`.
    fn mint(&mut self, cat: &str) -> (r: Result<String, IrError>)
        ensures
            match mint_label(old(self).counters_view(), cat@) {
                Some((l, c)) => r matches Ok(s) && s@ == l && final(self).counters_view() == c,
                None => r matches Err(x) && x == IrError::NamesExhausted,
            },
    {
        match self.counters.try_next_label(cat) {
            Some(l) => Ok(l),
            None => Err(IrError::NamesExhausted),
        }
    }

    /// Loads the variable `var` into a fresh temp named after it.
    fn load_variable(&mut self, scope: &mut Vec<Element>, type_: &Type, var: &str) -> (r: Result<
        MemoryValue,
        IrError,
    >)
        ensures
            expr_outcome(
                lower_name_spec(old(self).counters_view(), var@, *type_),
                r,
                elems_view(old(scope)@),
                elems_view(final(scope)@),
                final(self).counters_view(),
            ),
            r matches Ok(v) ==> !(mem_type(v@) is List),
    {
        if let Err(e) = lower_type(type_) {
            return Err(e);
        }
        let temp = match self.mint(var) {
            Ok(t) => t,
            Err(e) => return Err(e),
        };
        let home = MemoryValue::Temp(temp, type_.duplicate());
        let v = Variable::new(text_of(var), type_.duplicate());
        let ir = v.load(&home);
        let ghost s0 = elems_view(scope@);
        emit(scope, ir);
        proof {
            assert(elems_view(scope@) =~= s0 + seq![line(ir@)]);
        }
        Ok(home)
    }

    /// Stores `from` into the variable `var`.
    fn store_variable(&mut self, scope: &mut Vec<Element>, type_: &Type, var: &str, from: &MemoryValue)
        requires
            !(type_ is List),
            !(mem_type(from@) is List),
        ensures
            elems_view(final(scope)@) == elems_view(old(scope)@).push(
                line(store_line(var@, *type_, from@)),
            ),
            final(self).counters_view() == old(self).counters_view(),
    {
        let v = Variable::new(text_of(var), type_.duplicate());
        let ir = v.store(from);
        emit(scope, ir);
    }

    fn push_label(&self, scope: &mut Vec<Element>, label: &String)
        ensures
            elems_view(final(scope)@) == elems_view(old(scope)@).push(label_line(label@)),
    {
        emit(scope, label_text(label));
    }

    #[verifier::spinoff_prover]
    fn convert_arguments(&mut self, es: &Vec<TypedExpression>, scope: &mut Vec<Element>) -> (r: Result<
        Vec<String>,
        IrError,
    >)
        ensures
            match lower_args_spec(old(self).counters_view(), texprs_view(es@)) {
                Ok((texts, out, c)) => r matches Ok(v) && strings_view(v@) == texts && elems_view(
                    final(scope)@,
                ) == elems_view(old(scope)@) + out && final(self).counters_view() == c,
                Err(err) => r matches Err(x) && x == err,
            },
        decreases es, 0int,
    {
        let ghost ev = texprs_view(es@);
        let ghost s0 = elems_view(scope@);
        let ghost c0 = self.counters_view();
        let mut texts: Vec<String> = Vec::new();
        let mut i: usize = 0;
        proof {
            assert forall|j: int| 0 <= j < es.len() implies decreases_to!(*es => #[trigger] es[j]) by {
                assert(decreases_to!(*es => es[j]));
            }
            assert(ev.subrange(0, 0) =~= Seq::<TExprV>::empty());
            assert(strings_view(texts@) =~= Seq::<Seq<char>>::empty());
            assert(s0 + Seq::<ElemV>::empty() =~= s0);
        }
        while i < es.len()
            invariant
                i <= es.len(),
                ev == texprs_view(es@),
                ev.len() == es.len(),
                s0 == elems_view(old(scope)@),
                c0 == old(self).counters_view(),
                forall|j: int| 0 <= j < es.len() ==> decreases_to!(*es => #[trigger] es[j]),
                lower_args_spec(c0, ev.subrange(0, i as int)) matches Ok((tx, out, c)) && tx
                    == strings_view(texts@) && elems_view(scope@) == s0 + out
                    && self.counters_view() == c,
            decreases es.len() - i,
        {
            let ghost sub = ev.subrange(0, i + 1);
            let ghost prev = lower_args_spec(c0, ev.subrange(0, i as int));
            let ghost before = elems_view(scope@);
            proof {
                assert(sub.drop_last() =~= ev.subrange(0, i as int));
                assert(sub.last() == es@[i as int]@);
            }
            let m = match self.convert_expression(&es[i], scope) {
                Ok(v) => v,
                Err(e) => {
                    proof {
                        lemma_args_err_prefix(c0, ev, i + 1);
                    }
                    return Err(e);
                },
            };
            let t = m.to_ir(true);
            let ghost tx0 = strings_view(texts@);
            texts.push(t);
            proof {
                assert(strings_view(texts@) =~= tx0.push(mem_ir(m@, true)));
                let out0 = prev->Ok_0.1;
                let out1 = lower_expr_spec(prev->Ok_0.2, es@[i as int]@)->Ok_0.1;
                assert(elems_view(scope@) =~= s0 + (out0 + out1));
            }
            i = i + 1;
        }
        proof {
            assert(ev.subrange(0, es.len() as int) =~= ev);
        }
        Ok(texts)
    }

    #[verifier::rlimit(50)]
    #[verifier::spinoff_prover]
    fn convert_block(&mut self, block: &TypedBlock) -> (r: Result<(Vec<Element>, Option<MemoryValue>), IrError>)
        ensures
            match lower_block_spec(old(self).counters_view(), block@) {
                Ok((out, mv, c)) => r matches Ok((v, m)) && elems_view(v@) == out && opt_mem(m)
                    == mv && final(self).counters_view() == c,
                Err(err) => r matches Err(e) && e == err,
            },
            r matches Ok((_, Some(m))) ==> !(mem_type(m@) is List),
        decreases block, 0int,
    {
        let ghost bv = tstmts_view(block.body@);
        let ghost c0 = self.counters_view();
        let mut new_scope: Vec<Element> = Vec::new();
        let mut final_mv: Option<MemoryValue> = None;
        let mut i: usize = 0;
        proof {
            assert(decreases_to!(*block => block.body));
            assert forall|j: int| 0 <= j < block.body.len() implies decreases_to!(*block => #[trigger] block.body[j]) by {
                assert(decreases_to!(block.body => block.body[j]));
            }
            assert(block@.body =~= bv);
            assert(bv.subrange(0, 0) =~= Seq::<TStmtV>::empty());
            assert(elems_view(new_scope@) =~= Seq::<ElemV>::empty());
        }
        while i < block.body.len()
            invariant
                i <= block.body.len(),
                bv == tstmts_view(block.body@),
                block@.body == bv,
                bv.len() == block.body.len(),
                c0 == old(self).counters_view(),
                forall|j: int| 0 <= j < block.body.len() ==> decreases_to!(*block => #[trigger] block.body[j]),
                lower_stmts_spec(c0, bv.subrange(0, i as int)) matches Ok((out, mv, c)) && out
                    == elems_view(new_scope@) && mv == opt_mem(final_mv) && self.counters_view()
                    == c,
                final_mv matches Some(m) ==> !(mem_type(m@) is List),
            decreases block.body.len() - i,
        {
            let ghost sub = bv.subrange(0, i + 1);
            proof {
                assert(sub.drop_last() =~= bv.subrange(0, i as int));
                assert(sub.last() == block.body@[i as int]@);
            }
            let mv = match self.convert_statement(&block.body[i], &mut new_scope) {
                Ok(v) => v,
                Err(e) => {
                    proof {
                        lemma_stmts_err_prefix(c0, bv, i + 1);
                    }
                    return Err(e);
                },
            };
            final_mv = mv;
            i = i + 1;
        }
        proof {
            assert(bv.subrange(0, block.body.len() as int) =~= bv);
        }
        Ok((new_scope, final_mv))
    }

    #[verifier::spinoff_prover]
    fn convert_else(&mut self, slot: &String, else_block: &Option<TypedBlock>, scope: &mut Vec<Element>) -> (r: Result<(), IrError>)
        ensures
            match lower_else_spec(
                old(self).counters_view(),
                slot@,
                match else_block {
                    Some(b) => Some(b@),
                    None => None,
                },
            ) {
                Ok((out, c)) => r is Ok && elems_view(final(scope)@) == elems_view(old(scope)@) + out
                    && final(self).counters_view() == c,
                Err(err) => r matches Err(e) && e == err,
            },
        decreases else_block, 0int,
    {
        match else_block {
            None => {
                proof {
                    assert(elems_view(scope@) + Seq::<ElemV>::empty() =~= elems_view(scope@));
                }
                Ok(())
            },
            Some(eb) => {
                let ghost s0 = elems_view(scope@);
                if let Err(e) = lower_type(&eb.type_) {
                    return Err(e);
                }
                let (else_scope, final_memory) = match self.convert_block(eb) {
                    Ok(v) => v,
                    Err(e) => return Err(e),
                };
                let ghost inner = elems_view(else_scope@);
                emit_scope(scope, else_scope);
                match final_memory {
                    Some(m) => {
                        self.store_variable(scope, &eb.type_, slot.as_str(), &m);
                        proof {
                            assert(elems_view(scope@) =~= s0 + (seq![ElemV::Scope(inner)] + store_final(slot@, eb.type_, Some(m@))));
                        }
                    },
                    None => {
                        proof {
                            assert(elems_view(scope@) =~= s0 + (seq![ElemV::Scope(inner)] + store_final(slot@, eb.type_, None)));
                        }
                    },
                }
                Ok(())
            },
        }
    }

    #[verifier::spinoff_prover]
    fn convert_unary(&mut self, e: &TypedExpression, scope: &mut Vec<Element>) -> (r: Result<
        MemoryValue,
        IrError,
    >)
        ensures
            expr_outcome(
                lower_unary_spec(old(self).counters_view(), e@),
                r,
                elems_view(old(scope)@),
                elems_view(final(scope)@),
                final(self).counters_view(),
            ),
            r matches Ok(v) ==> !(mem_type(v@) is List),
        decreases e, 0int,
    {
        let (operator, rhs) = match e {
            TypedExpression::UnaryOperation { operator, rhs } => (operator, rhs),
            _ => return Err(IrError::UnsupportedType),
        };
        let ghost s0 = elems_view(scope@);
        let rt = rhs.get_type();
        if let Err(e) = lower_type(&rt) {
            return Err(e);
        }
        let m = match self.convert_expression(rhs, scope) {
            Ok(v) => v,
            Err(e) => return Err(e),
        };
        let ghost s1 = elems_view(scope@);
        let n = match self.mint(unary_cat(*operator)) {
            Ok(v) => v,
            Err(e) => return Err(e),
        };
        let dest = MemoryValue::Temp(n, rt);
        let text = unary_text(*operator, &dest, &m);
        emit(scope, text);
        proof {
            let out1 = s1.subrange(s0.len() as int, s1.len() as int);
            assert(s1 =~= s0 + out1);
            assert(elems_view(scope@) =~= s0 + out1.push(line(text@)));
        }
        Ok(dest)
    }

    #[verifier::spinoff_prover]
    fn convert_binary(&mut self, e: &TypedExpression, scope: &mut Vec<Element>) -> (r: Result<
        MemoryValue,
        IrError,
    >)
        ensures
            expr_outcome(
                lower_binary_spec(old(self).counters_view(), e@),
                r,
                elems_view(old(scope)@),
                elems_view(final(scope)@),
                final(self).counters_view(),
            ),
            r matches Ok(v) ==> !(mem_type(v@) is List),
        decreases e, 0int,
    {
        let (lhs, operator, rhs, type_) = match e {
            TypedExpression::BinaryOperation { lhs, operator, rhs, type_ } => (lhs, operator, rhs, type_),
            _ => return Err(IrError::UnsupportedType),
        };
        let ghost s0 = elems_view(scope@);
        let ghost c0 = self.counters_view();
        let lt = lhs.get_type();
        if let Err(e) = lower_type(&lt) {
            return Err(e);
        }
        if let Err(e) = lower_type(type_) {
            return Err(e);
        }
        let m1 = match self.convert_expression(lhs, scope) {
            Ok(v) => v,
            Err(e) => return Err(e),
        };
        let ghost first = lower_expr_spec(c0, lhs@)->Ok_0;
        let m2 = match self.convert_expression(rhs, scope) {
            Ok(v) => v,
            Err(e) => return Err(e),
        };
        let ghost second = lower_expr_spec(first.2, rhs@)->Ok_0;
        let (_, cat) = op_names(*operator);
        let n = match self.mint(cat) {
            Ok(v) => v,
            Err(e) => return Err(e),
        };
        let dest = MemoryValue::Temp(n, type_.duplicate());
        let text = binary_text(*operator, &dest, &lt, &m1, &m2);
        emit(scope, text);
        proof {
            assert(elems_view(scope@) =~= s0 + (first.1 + second.1).push(line(text@)));
        }
        Ok(dest)
    }

    #[verifier::spinoff_prover]
    fn convert_call(&mut self, e: &TypedExpression, scope: &mut Vec<Element>) -> (r: Result<
        MemoryValue,
        IrError,
    >)
        ensures
            expr_outcome(
                lower_call_spec(old(self).counters_view(), e@),
                r,
                elems_view(old(scope)@),
                elems_view(final(scope)@),
                final(self).counters_view(),
            ),
            r matches Ok(v) ==> !(mem_type(v@) is List),
        decreases e, 0int,
    {
        let (name, arguments, type_) = match e {
            TypedExpression::FunctionCall { name, arguments, type_ } => (name, arguments, type_),
            _ => return Err(IrError::UnsupportedType),
        };
        let ghost s0 = elems_view(scope@);
        if let Err(e) = lower_type(type_) {
            return Err(e);
        }
        proof {
            assert(e@->FunctionCall_arguments =~= texprs_view(arguments@));
        }
        let texts = match self.convert_arguments(arguments, scope) {
            Ok(v) => v,
            Err(e) => return Err(e),
        };
        let ghost s1 = elems_view(scope@);
        let mut cat = text_of("function_");
        cat.append(name.lexeme());
        let n = match self.mint(cat.as_str()) {
            Ok(v) => v,
            Err(e) => return Err(e),
        };
        let dest = MemoryValue::Temp(n, type_.duplicate());
        let text = call_text(&dest, type_, name.lexeme(), &texts);
        emit(scope, text);
        proof {
            let out1 = s1.subrange(s0.len() as int, s1.len() as int);
            assert(s1 =~= s0 + out1);
            assert(elems_view(scope@) =~= s0 + out1.push(line(text@)));
        }
        Ok(dest)
    }

    /// Lowers an `if` expression; its value is read back from a stack slot.
    #[verifier::rlimit(100)]
    #[verifier::spinoff_prover]
    fn convert_if(&mut self, e: &TypedExpression, scope: &mut Vec<Element>) -> (r: Result<
        MemoryValue,
        IrError,
    >)
        ensures
            expr_outcome(
                lower_if_spec(old(self).counters_view(), e@),
                r,
                elems_view(old(scope)@),
                elems_view(final(scope)@),
                final(self).counters_view(),
            ),
            r matches Ok(v) ==> !(mem_type(v@) is List),
        decreases e, 0int,
    {
        let (condition, true_block, else_block) = match e {
            TypedExpression::If { condition, true_block, else_block } => (condition, true_block, else_block),
            _ => return Err(IrError::UnsupportedType),
        };
        proof {
            assert(decreases_to!(*e => e->If_else_block));
        }
        let ghost s0 = elems_view(scope@);
        let tt = true_block.type_.duplicate();
        proof {
            assert(true_block@.type_ == tt);
        }
        if let Err(e) = lower_type(&tt) {
            return Err(e);
        }
        let rv = match self.mint("if_ret_var") {
            Ok(v) => v,
            Err(e) => return Err(e),
        };
        let mut if_scope: Vec<Element> = Vec::new();
        emit(&mut if_scope, alloca_text(rv.as_str(), &tt));
        let ghost h0 = elems_view(if_scope@);
        let ghost c1 = self.counters_view();
        let c = match self.convert_expression(condition, &mut if_scope) {
            Ok(v) => v,
            Err(e) => return Err(e),
        };
        let ghost cond = lower_expr_spec(c1, condition@)->Ok_0;
        let if_true = match self.mint("if_true") {
            Ok(v) => v,
            Err(e) => return Err(e),
        };
        let if_end = match self.mint("if_end") {
            Ok(v) => v,
            Err(e) => return Err(e),
        };
        let if_else = match self.mint("if_else") {
            Ok(v) => v,
            Err(e) => return Err(e),
        };
        emit(&mut if_scope, cond_br_text(&c, &if_true, &if_else));
        self.push_label(&mut if_scope, &if_true);
        let ghost c5 = self.counters_view();
        let (true_scope, final_memory) = match self.convert_block(true_block) {
            Ok(v) => v,
            Err(e) => return Err(e),
        };
        let ghost tv = elems_view(true_scope@);
        let ghost tfinal = opt_mem(final_memory);
        emit_scope(&mut if_scope, true_scope);
        let ghost h2 = elems_view(if_scope@);
        match final_memory {
            Some(m) => self.store_variable(&mut if_scope, &tt, rv.as_str(), &m),
            None => {},
        }
        proof {
            assert(elems_view(if_scope@) =~= h2 + store_final(rv@, tt, tfinal));
        }
        emit(&mut if_scope, br_text(&if_end));
        self.push_label(&mut if_scope, &if_else);
        let ghost head = elems_view(if_scope@);
        proof {
            let esc = cond.1;
            assert(head =~= seq![alloca_line(rv@, tt)] + esc + seq![
                cond_br_line(c@, if_true@, if_else@),
                label_line(if_true@),
                ElemV::Scope(tv),
            ] + store_final(rv@, tt, tfinal) + seq![br_line(if_end@), label_line(if_else@)]);
        }
        let ghost c6 = self.counters_view();
        if let Err(err) = self.convert_else(&rv, else_block, &mut if_scope) {
            return Err(err);
        }
        let ghost ees = lower_else_spec(
            c6,
            rv@,
            match else_block {
                Some(b) => Some(b@),
                None => None,
            },
        )->Ok_0.0;
        emit(&mut if_scope, br_text(&if_end));
        self.push_label(&mut if_scope, &if_end);
        let loaded = match self.load_variable(&mut if_scope, &tt, rv.as_str()) {
            Ok(v) => v,
            Err(e) => return Err(e),
        };
        proof {
            assert(elems_view(if_scope@) =~= head + ees + seq![
                br_line(if_end@),
                label_line(if_end@),
                line(load_line(rv@, tt, loaded@)),
            ]);
        }
        let ghost body = elems_view(if_scope@);
        emit_scope(scope, if_scope);
        proof {
            assert(elems_view(scope@) =~= s0 + seq![ElemV::Scope(body)]);
        }
        Ok(loaded)
    }

    /// Lowers an expression, appending its code to `scope`, and hands back where
    /// its value lives.
    fn convert_expression(&mut self, e: &TypedExpression, scope: &mut Vec<Element>) -> (r: Result<
        MemoryValue,
        IrError,
    >)
        ensures
            expr_outcome(
                lower_expr_spec(old(self).counters_view(), e@),
                r,
                elems_view(old(scope)@),
                elems_view(final(scope)@),
                final(self).counters_view(),
            ),
            r matches Ok(v) ==> !(mem_type(v@) is List),
        decreases e, 1int,
    {
        let ghost s0 = elems_view(scope@);
        match e {
            TypedExpression::Int(t) => {
                proof {
                    assert(s0 + Seq::<ElemV>::empty() =~= s0);
                }
                Ok(MemoryValue::Const(text_of(t.lexeme()), Type::Int))
            },
            TypedExpression::Bool(b, _) => {
                proof {
                    assert(s0 + Seq::<ElemV>::empty() =~= s0);
                }
                Ok(
                    MemoryValue::Const(
                        text_of(
                            if *b {
                                "1"
                            } else {
                                "0"
                            },
                        ),
                        Type::Bool,
                    ),
                )
            },
            TypedExpression::List(_, _) => Err(IrError::UnsupportedType),
            TypedExpression::Name(t, ty) => self.load_variable(scope, ty, t.lexeme()),
            TypedExpression::UnaryOperation { .. } => self.convert_unary(e, scope),
            TypedExpression::BinaryOperation { .. } => self.convert_binary(e, scope),
            TypedExpression::FunctionCall { .. } => self.convert_call(e, scope),
            TypedExpression::If { .. } => self.convert_if(e, scope),
        }
    }

    #[verifier::rlimit(50)]
    #[verifier::spinoff_prover]
    fn convert_function(&mut self, statement: &TypedStatement, scope: &mut Vec<Element>) -> (r:
        Result<Option<MemoryValue>, IrError>)
        ensures
            stmt_outcome(
                lower_function_spec(old(self).counters_view(), statement@),
                r,
                elems_view(old(scope)@),
                elems_view(final(scope)@),
                final(self).counters_view(),
            ),
            r matches Ok(Some(m)) ==> !(mem_type(m@) is List),
        decreases statement, 0int,
    {
        let func_def = match statement {
            TypedStatement::FunctionDefinitionStatement(func_def) => func_def,
            _ => return Err(IrError::UnsupportedType),
        };
        proof {
            assert(decreases_to!(*statement => statement->FunctionDefinitionStatement_0));
        }
        let ghost s0 = elems_view(scope@);
        if let Err(e) = lower_type(&func_def.type_) {
            return Err(e);
        }
        let ghost args = arg_views(func_def.arg_list@);
        if has_list_param(&func_def.arg_list) {
            return Err(IrError::UnsupportedType);
        }
        let mut decls: Vec<String> = Vec::new();
        let mut allocs: Vec<Element> = Vec::new();
        let mut i: usize = 0;
        proof {
            assert(args.subrange(0, 0) =~= Seq::<(TokenView, Type)>::empty());
            assert(strings_view(decls@) =~= param_decls(args.subrange(0, 0)));
            assert(elems_view(allocs@) =~= param_slots(args.subrange(0, 0)));
        }
        while i < func_def.arg_list.len()
            invariant
                i <= func_def.arg_list.len(),
                args == arg_views(func_def.arg_list@),
                args.len() == func_def.arg_list.len(),
                !any_list_param(args),
                strings_view(decls@) == param_decls(args.subrange(0, i as int)),
                elems_view(allocs@) == param_slots(args.subrange(0, i as int)),
                self.counters_view() == old(self).counters_view(),
            decreases func_def.arg_list.len() - i,
        {
            let (ref name, ref type_) = func_def.arg_list[i];
            proof {
                assert(args[i as int] == (name@, *type_));
                assert(!(type_ is List));
            }
            let decl = param_text(name.lexeme(), type_);
            let ghost d0 = strings_view(decls@);
            decls.push(decl);
            let ghost a0 = elems_view(allocs@);
            emit(&mut allocs, alloca_text(name.lexeme(), type_));
            let mut incoming = text_of("_");
            incoming.append(name.lexeme());
            let from = MemoryValue::Temp(incoming, type_.duplicate());
            self.store_variable(&mut allocs, type_, name.lexeme(), &from);
            proof {
                let sub = args.subrange(0, i + 1);
                assert(sub.drop_last() =~= args.subrange(0, i as int));
                assert(sub.last() == (name@, *type_));
                assert(strings_view(decls@) =~= d0.push(decl@));
                assert(param_decls(sub) =~= param_decls(args.subrange(0, i as int)).push(decl@));
                assert(elems_view(allocs@) =~= param_slots(sub));
            }
            i = i + 1;
        }
        proof {
            assert(args.subrange(0, args.len() as int) =~= args);
        }
        let (body, _) = match self.convert_block(&func_def.body) {
            Ok(v) => v,
            Err(e) => return Err(e),
        };
        let header = header_text(&func_def.type_, func_def.name.lexeme(), &decls);
        let ghost hv = header@;
        let ghost av = elems_view(allocs@);
        let ghost bv = elems_view(body@);
        emit(scope, header);
        emit_scope(scope, allocs);
        emit_scope(scope, body);
        let close = text_of("}");
        proof {
            reveal_strlit("}");
        }
        emit(scope, close);
        proof {
            assert(elems_view(scope@) =~= s0 + seq![
                line(hv),
                ElemV::Scope(av),
                ElemV::Scope(bv),
                line("}"@),
            ]);
        }
        Ok(None)
    }

    #[verifier::rlimit(50)]
    #[verifier::spinoff_prover]
    fn convert_while(&mut self, statement: &TypedStatement, scope: &mut Vec<Element>) -> (r:
        Result<Option<MemoryValue>, IrError>)
        ensures
            stmt_outcome(
                lower_while_spec(old(self).counters_view(), statement@),
                r,
                elems_view(old(scope)@),
                elems_view(final(scope)@),
                final(self).counters_view(),
            ),
            r matches Ok(Some(m)) ==> !(mem_type(m@) is List),
        decreases statement, 0int,
    {
        let (condition, body) = match statement {
            TypedStatement::While { condition, body } => (condition, body),
            _ => return Err(IrError::UnsupportedType),
        };
        let ghost s0 = elems_view(scope@);
        let mut while_scope: Vec<Element> = Vec::new();
        let while_entry = match self.mint("while") {
            Ok(v) => v,
            Err(e) => return Err(e),
        };
        emit(&mut while_scope, br_text(&while_entry));
        self.push_label(&mut while_scope, &while_entry);
        let ghost w0 = elems_view(while_scope@);
        let ghost g1 = self.counters_view();
        let c = match self.convert_expression(condition, &mut while_scope) {
            Ok(v) => v,
            Err(e) => return Err(e),
        };
        let ghost cond = lower_expr_spec(g1, condition@)->Ok_0;
        let while_true = match self.mint("while_true") {
            Ok(v) => v,
            Err(e) => return Err(e),
        };
        let while_end = match self.mint("while_end") {
            Ok(v) => v,
            Err(e) => return Err(e),
        };
        emit(&mut while_scope, cond_br_text(&c, &while_true, &while_end));
        self.push_label(&mut while_scope, &while_true);
        let ghost g4 = self.counters_view();
        let (body_scope, _) = match self.convert_block(body) {
            Ok(v) => v,
            Err(e) => return Err(e),
        };
        let ghost blk = lower_block_spec(g4, body@)->Ok_0;
        let ghost bv = elems_view(body_scope@);
        emit_scope(&mut while_scope, body_scope);
        emit(&mut while_scope, br_text(&while_entry));
        self.push_label(&mut while_scope, &while_end);
        proof {
            let esc = cond.1;
            assert(elems_view(while_scope@) =~= seq![br_line(while_entry@), label_line(while_entry@)] + esc + seq![
                cond_br_line(c@, while_true@, while_end@),
                label_line(while_true@),
                ElemV::Scope(bv),
                br_line(while_entry@),
                label_line(while_end@),
            ]);
        }
        let ghost ws = elems_view(while_scope@);
        emit_scope(scope, while_scope);
        proof {
            assert(elems_view(scope@) =~= s0 + seq![ElemV::Scope(ws)]);
        }
        Ok(None)
    }

    #[verifier::rlimit(100)]
    #[verifier::spinoff_prover]
    fn convert_declaration(&mut self, statement: &TypedStatement, scope: &mut Vec<Element>) -> (r:
        Result<Option<MemoryValue>, IrError>)
        ensures
            stmt_outcome(
                lower_declaration_spec(old(self).counters_view(), statement@),
                r,
                elems_view(old(scope)@),
                elems_view(final(scope)@),
                final(self).counters_view(),
            ),
            r matches Ok(Some(m)) ==> !(mem_type(m@) is List),
        decreases statement, 0int,
    {
        let (name, type_, value) = match statement {
            TypedStatement::VariableDeclaration { name, type_, value } => (name, type_, value),
            _ => return Err(IrError::UnsupportedType),
        };
        let ghost s0 = elems_view(scope@);
        let ghost c0 = self.counters_view();
        if let Err(e) = lower_type(type_) {
            return Err(e);
        }
        let v = match self.convert_expression(value, scope) {
            Ok(v) => v,
            Err(e) => return Err(e),
        };
        let ghost first = lower_expr_spec(c0, value@)->Ok_0;
        let ghost s1 = elems_view(scope@);
        proof {
            assert(s1 == s0 + first.1);
        }
        let slot = alloca_text(name.lexeme(), type_);
        let ghost slot_line = line(slot@);
        emit(scope, slot);
        let ghost s2 = elems_view(scope@);
        self.store_variable(scope, type_, name.lexeme(), &v);
        proof {
            assert(s2 == s1.push(slot_line));
            assert(slot_line == alloca_line(name@.lexeme, *type_));
        }
        proof {
            assert(elems_view(scope@) =~= s0 + first.1.push(slot_line).push(
                line(store_line(name@.lexeme, *type_, v@)),
            ));
        }
        Ok(None)
    }

    #[verifier::spinoff_prover]
    fn convert_assignment(&mut self, statement: &TypedStatement, scope: &mut Vec<Element>) -> (r:
        Result<Option<MemoryValue>, IrError>)
        ensures
            stmt_outcome(
                lower_assignment_spec(old(self).counters_view(), statement@),
                r,
                elems_view(old(scope)@),
                elems_view(final(scope)@),
                final(self).counters_view(),
            ),
            r matches Ok(Some(m)) ==> !(mem_type(m@) is List),
        decreases statement, 0int,
    {
        let (to, value) = match statement {
            TypedStatement::Assignment { to, value } => (to, value),
            _ => return Err(IrError::UnsupportedType),
        };
        let ghost s0 = elems_view(scope@);
        let ghost c0 = self.counters_view();
        let t = value.get_type();
        if let Err(e) = lower_type(&t) {
            return Err(e);
        }
        let v = match self.convert_expression(value, scope) {
            Ok(v) => v,
            Err(e) => return Err(e),
        };
        let ghost first = lower_expr_spec(c0, value@)->Ok_0;
        self.store_variable(scope, &t, to.lexeme(), &v);
        proof {
            assert(elems_view(scope@) =~= s0 + first.1.push(line(store_line(to@.lexeme, t, v@))));
        }
        Ok(None)
    }

    #[verifier::spinoff_prover]
    fn convert_return(&mut self, statement: &TypedStatement, scope: &mut Vec<Element>) -> (r:
        Result<Option<MemoryValue>, IrError>)
        ensures
            stmt_outcome(
                lower_return_spec(old(self).counters_view(), statement@),
                r,
                elems_view(old(scope)@),
                elems_view(final(scope)@),
                final(self).counters_view(),
            ),
            r matches Ok(Some(m)) ==> !(mem_type(m@) is List),
        decreases statement, 0int,
    {
        let e = match statement {
            TypedStatement::Return(e) => e,
            _ => return Err(IrError::UnsupportedType),
        };
        let ghost s0 = elems_view(scope@);
        let ghost c0 = self.counters_view();
        let v = match self.convert_expression(e, scope) {
            Ok(v) => v,
            Err(e) => return Err(e),
        };
        let ghost first = lower_expr_spec(c0, e@)->Ok_0;
        let text = ret_text(&v);
        emit(scope, text);
        proof {
            assert(elems_view(scope@) =~= s0 + first.1.push(line(text@)));
        }
        Ok(None)
    }

    /// Lowers one statement, appending its elements to `scope`; an expression
    /// statement hands back its value.
    #[verifier::rlimit(50)]
    #[verifier::spinoff_prover]
    pub fn convert_statement(&mut self, statement: &TypedStatement, scope: &mut Vec<Element>) -> (r:
        Result<Option<MemoryValue>, IrError>)
        ensures
            stmt_outcome(
                lower_stmt_spec(old(self).counters_view(), statement@),
                r,
                elems_view(old(scope)@),
                elems_view(final(scope)@),
                final(self).counters_view(),
            ),
            r matches Ok(Some(m)) ==> !(mem_type(m@) is List),
        decreases statement, 1int,
    {
        let ghost s0 = elems_view(scope@);
        match statement {
            TypedStatement::FunctionDefinitionStatement(_) => self.convert_function(statement, scope),
            TypedStatement::While { .. } => self.convert_while(statement, scope),
            TypedStatement::VariableDeclaration { .. } => self.convert_declaration(statement, scope),
            TypedStatement::Assignment { .. } => self.convert_assignment(statement, scope),
            TypedStatement::Return(_) => self.convert_return(statement, scope),
            TypedStatement::Expression(e) => {
                let v = match self.convert_expression(e, scope) {
                    Ok(v) => v,
                    Err(e) => return Err(e),
                };
                Ok(Some(v))
            },
        }
    }
}

/// Lowers a typed program to IR lines: each statement in order, then the element
/// tree flattened with one tab per nesting level.
#[verifier::spinoff_prover]
pub fn convert(ast: &Vec<TypedStatement>) -> (r: Result<Vec<String>, IrError>)
    ensures
        match convert_spec(tstmts_view(ast@)) {
            Ok(lines) => r matches Ok(v) && strings_view(v@) == lines,
            Err(err) => r matches Err(e) && e == err,
        },
{
    let mut builder = IrBuilder::new();
    let mut elements: Vec<Element> = Vec::new();
    let ghost av = tstmts_view(ast@);
    let mut i: usize = 0;
    proof {
        assert(av.subrange(0, 0) =~= Seq::<TStmtV>::empty());
        assert(elems_view(elements@) =~= Seq::<ElemV>::empty());
    }
    while i < ast.len()
        invariant
            i <= ast.len(),
            av == tstmts_view(ast@),
            av.len() == ast.len(),
            lower_stmts_spec(CountersV::empty(), av.subrange(0, i as int)) matches Ok((out, _, c))
                && out == elems_view(elements@) && builder.counters_view() == c,
        decreases ast.len() - i,
    {
        let ghost sub = av.subrange(0, i + 1);
        proof {
            assert(sub.drop_last() =~= av.subrange(0, i as int));
        }
        match builder.convert_statement(&ast[i], &mut elements) {
            Ok(_) => {},
            Err(e) => {
                proof {
                    lemma_stmts_err_prefix(CountersV::empty(), av, i + 1);
                }
                return Err(e);
            },
        }
        i = i + 1;
    }
    proof {
        assert(av.subrange(0, ast.len() as int) =~= av);
    }
    let mut lines: Vec<String> = Vec::new();
    let ghost ev = elems_view(elements@);
    let mut k: usize = 0;
    proof {
        assert(ev.subrange(0, 0) =~= Seq::<ElemV>::empty());
        assert(strings_view(lines@) =~= flatten_all(ev.subrange(0, 0)));
    }
    while k < elements.len()
        invariant
            k <= elements.len(),
            ev == elems_view(elements@),
            strings_view(lines@) == flatten_all(ev.subrange(0, k as int)),
        decreases elements.len() - k,
    {
        let mut flat = elements[k].flatten();
        let ghost l0 = strings_view(lines@);
        let ghost f0 = strings_view(flat@);
        lines.append(&mut flat);
        proof {
            let sub = ev.subrange(0, k + 1);
            assert(sub.drop_last() =~= ev.subrange(0, k as int));
            assert(strings_view(lines@) =~= l0 + f0);
        }
        k = k + 1;
    }
    proof {
        assert(ev.subrange(0, elements.len() as int) =~= ev);
    }
    Ok(lines)
}

} // verus!
