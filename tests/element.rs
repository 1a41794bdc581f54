use langc::llvm::{decimal_string, Counters, Element, MemoryValue, Variable};
use langc::typed_ast::Type;

#[test]
fn zero_deep() {
    let t = Element::Elem(String::from("a"));
    assert_eq!(t.flatten(), vec![String::from("a")])
}

#[test]
fn one_deep() {
    let t = Element::Scope(vec![Element::Elem(String::from("a")), Element::Elem(String::from("b"))]);
    assert_eq!(t.flatten(), vec![String::from("\ta"), String::from("\tb")])
}

#[test]
fn two_deep() {
    let t = Element::Scope(vec![
        Element::Elem(String::from("a")),
        Element::Scope(vec![Element::Elem(String::from("b")), Element::Elem(String::from("c"))]),
    ]);
    assert_eq!(t.flatten(), vec![String::from("\ta"), String::from("\t\tb"), String::from("\t\tc")])
}

#[test]
fn universe() {
    let t = vec![
        Element::Elem(String::from("define int @main() {")),
        Element::Scope(vec![
            Element::Elem(String::from("%i321 = i32 42")),
            Element::Elem(String::from("ret i32 %i321")),
        ]),
        Element::Elem(String::from("}")),
    ];
    let t: Vec<String> = t.into_iter().map(|x| x.flatten()).flatten().collect();
    assert_eq!(
        t,
        vec![
            String::from("define int @main() {"),
            String::from("\t%i321 = i32 42"),
            String::from("\tret i32 %i321"),
            String::from("}")
        ]
    )
}

#[test]
fn counters_count_each_category_from_one() {
    let mut c = Counters::new();
    assert_eq!(c.next("add"), "%add_1");
    assert_eq!(c.next("add"), "%add_2");
    assert_eq!(c.next("eq"), "%eq_1");
    assert_eq!(c.next("add"), "%add_3");
    assert_eq!(c.try_next_label("while"), Some(String::from("while_1")));
}

#[test]
fn decimal_text() {
    assert_eq!(decimal_string(0), "0");
    assert_eq!(decimal_string(7), "7");
    assert_eq!(decimal_string(1204), "1204");
    assert_eq!(decimal_string(usize::MAX), usize::MAX.to_string());
}

#[test]
fn memory_values_print_with_and_without_type() {
    let t = MemoryValue::Temp(String::from("add_1"), Type::Int);
    assert_eq!(t.to_ir(true), "i32 %add_1");
    assert_eq!(t.to_ir(false), "%add_1");
    let marked = MemoryValue::Temp(String::from("%add_1"), Type::Int);
    assert_eq!(marked.to_ir(false), "%add_1");
    let c = MemoryValue::Const(String::from("1"), Type::Bool);
    assert_eq!(c.to_ir(true), "i1 1");
}

#[test]
fn variables_load_and_store() {
    let v = Variable::new(String::from("x"), Type::Int);
    let into = MemoryValue::Temp(String::from("x_1"), Type::Int);
    assert_eq!(v.load(&into), "%x_1 = load i32, i32* %x");
    let from = MemoryValue::Const(String::from("4"), Type::Int);
    assert_eq!(v.store(&from), "store i32 4, i32* %x");
    let a = Variable::new(String::from("a"), Type::Int);
    assert_eq!(a.store(&MemoryValue::Temp(String::from("_a"), Type::Int)), "store i32 %_a, i32* %a");
}

#[test]
fn type_names() {
    assert_eq!(Type::Int.llvm_type(), "i32");
    assert_eq!(Type::Bool.llvm_type(), "i1");
    assert_eq!(Type::Unit.llvm_type(), "");
    assert_eq!(Type::List(Box::new(Type::Int)).to_text(), "list<int>");
}
