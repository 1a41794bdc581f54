use crate::typed_ast::{llvm_type_spec, Type};
use vstd::prelude::*;
use vstd::string::*;

verus! {

/// The decimal digit `d` as text.
pub open spec fn digit_text(d: nat) -> Seq<char> {
    if d == 0 {
        "0"@
    } else if d == 1 {
        "1"@
    } else if d == 2 {
        "2"@
    } else if d == 3 {
        "3"@
    } else if d == 4 {
        "4"@
    } else if d == 5 {
        "5"@
    } else if d == 6 {
        "6"@
    } else if d == 7 {
        "7"@
    } else if d == 8 {
        "8"@
    } else {
        "9"@
    }
}

/// The character of the decimal digit `d`.
pub open spec fn digit_char(d: nat) -> char {
    if d == 0 {
        '0'
    } else if d == 1 {
        '1'
    } else if d == 2 {
        '2'
    } else if d == 3 {
        '3'
    } else if d == 4 {
        '4'
    } else if d == 5 {
        '5'
    } else if d == 6 {
        '6'
    } else if d == 7 {
        '7'
    } else if d == 8 {
        '8'
    } else {
        '9'
    }
}

pub proof fn lemma_digit_text(d: nat)
    requires
        d < 10,
    ensures
        digit_text(d) == seq![digit_char(d)],
{
    reveal_strlit("0");
    reveal_strlit("1");
    reveal_strlit("2");
    reveal_strlit("3");
    reveal_strlit("4");
    reveal_strlit("5");
    reveal_strlit("6");
    reveal_strlit("7");
    reveal_strlit("8");
    reveal_strlit("9");
    assert(digit_text(d) =~= seq![digit_char(d)]);
}

pub proof fn lemma_decimal_shape(n: nat)
    ensures
        n < 10 ==> decimal(n) == seq![digit_char(n)],
        n >= 10 ==> decimal(n).len() >= 2 && decimal(n).last() == digit_char(n % 10)
            && decimal(n).drop_last() == decimal(n / 10),
        decimal(n).len() >= 1,
    decreases n,
{
    if n < 10 {
        lemma_digit_text(n);
    } else {
        lemma_digit_text(n % 10);
        lemma_decimal_shape(n / 10);
        let d = decimal(n / 10);
        assert((d + seq![digit_char(n % 10)]).drop_last() =~= d);
    }
}

/// Different numbers print differently.
pub proof fn lemma_decimal_injective(a: nat, b: nat)
    requires
        decimal(a) == decimal(b),
    ensures
        a == b,
    decreases a,
{
    lemma_decimal_shape(a);
    lemma_decimal_shape(b);
    if a < 10 {
        if b < 10 {
            assert(decimal(a)[0] == digit_char(a));
            assert(decimal(b)[0] == digit_char(b));
        }
    } else {
        assert(b >= 10);
        assert(a % 10 == b % 10);
        lemma_decimal_injective(a / 10, b / 10);
        assert(a == 10 * (a / 10) + a % 10) by (nonlinear_arith);
        assert(b == 10 * (b / 10) + b % 10) by (nonlinear_arith);
    }
}

/// `n` in decimal, without leading zeros.
pub open spec fn decimal(n: nat) -> Seq<char>
    decreases n,
{
    if n < 10 {
        digit_text(n)
    } else {
        decimal(n / 10) + digit_text(n % 10)
    }
}

fn digit_string(d: usize) -> (r: String)
    requires
        d < 10,
    ensures
        r@ == digit_text(d as nat),
{
    if d == 0 {
        String::from_str("0")
    } else if d == 1 {
        String::from_str("1")
    } else if d == 2 {
        String::from_str("2")
    } else if d == 3 {
        String::from_str("3")
    } else if d == 4 {
        String::from_str("4")
    } else if d == 5 {
        String::from_str("5")
    } else if d == 6 {
        String::from_str("6")
    } else if d == 7 {
        String::from_str("7")
    } else if d == 8 {
        String::from_str("8")
    } else {
        String::from_str("9")
    }
}

/// `n` in decimal.
pub fn decimal_string(n: usize) -> (r: String)
    ensures
        r@ == decimal(n as nat),
    decreases n,
{
    if n < 10 {
        digit_string(n)
    } else {
        let mut s = decimal_string(n / 10);
        let d = digit_string(n % 10);
        s.append(d.as_str());
        s
    }
}

/// The issued counts, oldest first: the count of a category is its newest entry.
pub type CountersV = Seq<(Seq<char>, nat)>;

pub open spec fn count_of(c: CountersV, cat: Seq<char>) -> nat
    decreases c.len(),
{
    if c.len() == 0 {
        0
    } else if c.last().0 == cat {
        c.last().1
    } else {
        count_of(c.drop_last(), cat)
    }
}

/// The next name of category `cat`, `cat_n`, and the counters after issuing it;
/// none once the category's count cannot grow.
pub open spec fn mint_label(c: CountersV, cat: Seq<char>) -> Option<(Seq<char>, CountersV)> {
    let n = count_of(c, cat);
    if n < usize::MAX {
        Some((cat + "_"@ + decimal((n + 1) as nat), c.push((cat, (n + 1) as nat))))
    } else {
        None
    }
}

/// Issues `%<category>_<n>` names, counting each category from 1.
pub struct Counters {
    counts: Vec<(String, usize)>,
}

impl Counters {
    pub closed spec fn view(&self) -> CountersV {
        self.counts@.map_values(|e: (String, usize)| (e.0@, e.1 as nat))
    }

    pub closed spec fn wf(&self) -> bool {
        forall|i: int| 0 <= i < self.counts@.len() ==> #[trigger] self.counts@[i].1 <= usize::MAX
    }

    pub fn new() -> (r: Self)
        ensures
            r.view() == CountersV::empty(),
    {
        let r = Self { counts: Vec::new() };
        proof {
            assert(r.view() =~= CountersV::empty());
        }
        r
    }

    fn count(&self, cat: &str) -> (r: usize)
        ensures
            r as nat == count_of(self.view(), cat@),
    {
        let ghost v = self.view();
        let mut j = self.counts.len();
        proof {
            assert(v.subrange(0, j as int) =~= v);
        }
        while j > 0
            invariant
                j <= self.counts.len(),
                v == self.view(),
                count_of(v, cat@) == count_of(v.subrange(0, j as int), cat@),
            decreases j,
        {
            let ghost sub = v.subrange(0, j as int);
            proof {
                assert(sub.drop_last() =~= v.subrange(0, j - 1));
            }
            if self.counts[j - 1].0.as_str().unicode_len() == cat.unicode_len() && same_text(
                self.counts[j - 1].0.as_str(),
                cat,
            ) {
                return self.counts[j - 1].1;
            }
            j = j - 1;
        }
        0
    }

    /// The next label of category `what`: `what_n`, or none when the count is exhausted.
    pub fn try_next_label(&mut self, what: &str) -> (r: Option<String>)
        ensures
            match mint_label(old(self).view(), what@) {
                Some((name, c)) => r matches Some(s) && s@ == name && final(self).view() == c,
                None => r is None && final(self).view() == old(self).view(),
            },
    {
        let n = self.count(what);
        if n == usize::MAX {
            return None;
        }
        let next = n + 1;
        let mut name = String::from_str(what);
        name.append("_");
        let digits = decimal_string(next);
        name.append(digits.as_str());
        let ghost before = self.view();
        self.counts.push((String::from_str(what), next));
        proof {
            assert(self.view() =~= before.push((what@, next as nat)));
        }
        Some(name)
    }

    /// The next temp name of category `what`: `%what_n`.
    pub fn next(&mut self, what: &str) -> (r: String)
        requires
            count_of(old(self).view(), what@) < usize::MAX,
        ensures
            mint_label(old(self).view(), what@) matches Some((name, c)) && r@ == "%"@ + name
                && final(self).view() == c,
    {
        let label = self.try_next_label(what);
        let mut r = String::from_str("%");
        match label {
            Some(l) => r.append(l.as_str()),
            None => {},
        }
        r
    }
}

/// Whether two texts of equal length are the same.
fn same_text(a: &str, b: &str) -> (r: bool)
    requires
        a@.len() == b@.len(),
    ensures
        r == (a@ == b@),
{
    let n = a.unicode_len();
    let mut i: usize = 0;
    while i < n
        invariant
            n == a@.len(),
            a@.len() == b@.len(),
            i <= n,
            forall|j: int| 0 <= j < i ==> a@[j] == b@[j],
        decreases n - i,
    {
        if a.get_char(i) != b.get_char(i) {
            return false;
        }
        i = i + 1;
    }
    assert(a@ =~= b@);
    true
}


/// A node of the IR tree: one line, or a nested scope indented one level further.
#[derive(Debug, PartialEq)]
pub enum Element {
    Scope(Vec<Element>),
    Elem(String),
}

pub enum ElemV {
    Scope(Seq<ElemV>),
    Elem(Seq<char>),
}

impl Element {
    pub open spec fn view(&self) -> ElemV
        decreases self,
    {
        match self {
            Element::Scope(v) => ElemV::Scope(
                Seq::new(
                    v@.len(),
                    |i: int|
                        if 0 <= i < v@.len() {
                            v@[i].view()
                        } else {
                            ElemV::Elem(Seq::empty())
                        },
                ),
            ),
            Element::Elem(s) => ElemV::Elem(s@),
        }
    }
}

pub open spec fn elems_view(v: Seq<Element>) -> Seq<ElemV> {
    v.map_values(|e: Element| e@)
}

pub open spec fn strings_view(v: Seq<String>) -> Seq<Seq<char>> {
    v.map_values(|s: String| s@)
}

/// Each line with one more tab in front.
pub open spec fn indent(lines: Seq<Seq<char>>) -> Seq<Seq<char>> {
    lines.map_values(|l: Seq<char>| "\t"@ + l)
}

/// The lines of an element, depth first; a scope indents its whole subtree by one tab.
pub open spec fn flatten_spec(e: ElemV) -> Seq<Seq<char>>
    decreases e, 1int,
{
    match e {
        ElemV::Elem(s) => seq![s],
        ElemV::Scope(v) => indent(flatten_all(v)),
    }
}

/// The lines of a sequence of elements, in order.
pub open spec fn flatten_all(v: Seq<ElemV>) -> Seq<Seq<char>>
    decreases v, 0int,
{
    if v.len() == 0 {
        Seq::empty()
    } else {
        flatten_all(v.drop_last()) + flatten_spec(v.last())
    }
}

impl Element {
    /// The lines of this element, each nested scope adding one tab.
    pub fn flatten(&self) -> (r: Vec<String>)
        ensures
            strings_view(r@) == flatten_spec(self@),
        decreases self,
    {
        match self {
            Element::Elem(e) => {
                let mut r: Vec<String> = Vec::new();
                r.push(e.clone());
                proof {
                    assert(strings_view(r@) =~= seq![e@]);
                }
                r
            },
            Element::Scope(v) => {
                let ghost ev = self@->Scope_0;
                let mut out: Vec<String> = Vec::new();
                let mut i: usize = 0;
                proof {
                    assert(decreases_to!(*self => self->Scope_0));
                    assert forall|j: int| 0 <= j < v.len() implies decreases_to!(*self => #[trigger] v[j]) by {
                        assert(decreases_to!(*v => v[j]));
                    }
                    assert(ev.subrange(0, 0) =~= Seq::<ElemV>::empty());
                    assert(strings_view(out@) =~= indent(flatten_all(ev.subrange(0, 0))));
                }
                while i < v.len()
                    invariant
                        i <= v.len(),
                        ev.len() == v.len(),
                        forall|j: int| 0 <= j < v.len() ==> ev[j] == (#[trigger] v[j])@,
                        forall|j: int| 0 <= j < v.len() ==> decreases_to!(*self => #[trigger] v[j]),
                        strings_view(out@) =~= indent(flatten_all(ev.subrange(0, i as int))),
                    decreases v.len() - i,
                {
                    let lines = v[i].flatten();
                    let ghost before = strings_view(out@);
                    let mut k: usize = 0;
                    while k < lines.len()
                        invariant
                            k <= lines.len(),
                            strings_view(out@) =~= before + indent(strings_view(lines@).subrange(0, k as int)),
                        decreases lines.len() - k,
                    {
                        let mut l = String::from_str("\t");
                        l.append(lines[k].as_str());
                        let ghost mid = strings_view(out@);
                        out.push(l);
                        proof {
                            assert(strings_view(out@) =~= mid.push(l@));
                            assert(indent(strings_view(lines@).subrange(0, k + 1)) =~= indent(
                                strings_view(lines@).subrange(0, k as int),
                            ).push("\t"@ + lines@[k as int]@));
                        }
                        k = k + 1;
                    }
                    proof {
                        let sub = ev.subrange(0, i + 1);
                        assert(sub.drop_last() =~= ev.subrange(0, i as int));
                        assert(sub.last() == v@[i as int]@);
                        assert(strings_view(lines@).subrange(0, lines.len() as int) =~= strings_view(lines@));
                        assert(indent(flatten_all(sub)) =~= indent(flatten_all(ev.subrange(0, i as int))) + indent(
                            flatten_spec(v@[i as int]@),
                        ));
                    }
                    i = i + 1;
                }
                proof {
                    assert(ev.subrange(0, v.len() as int) =~= ev);
                }
                out
            },
        }
    }
}

/// Where a value lives: an SSA temp (printed with one `%` in front of its name),
/// or a constant's literal text.
#[derive(Debug, PartialEq)]
pub enum MemoryValue {
    Temp(String, Type),
    Const(String, Type),
}

pub enum MemV {
    Temp(Seq<char>, Type),
    Const(Seq<char>, Type),
}

impl MemoryValue {
    pub open spec fn view(&self) -> MemV {
        match self {
            MemoryValue::Temp(n, t) => MemV::Temp(n@, *t),
            MemoryValue::Const(v, t) => MemV::Const(v@, *t),
        }
    }
}

pub open spec fn mem_type(m: MemV) -> Type {
    match m {
        MemV::Temp(_, t) => t,
        MemV::Const(_, t) => t,
    }
}

/// `n` without any leading `%`.
pub open spec fn strip_percent(n: Seq<char>) -> Seq<char>
    decreases n.len(),
{
    if n.len() > 0 && n[0] == '%' {
        strip_percent(n.drop_first())
    } else {
        n
    }
}

/// A value as an operand: a temp with exactly one `%` in front, a constant as written.
pub open spec fn mem_text(m: MemV) -> Seq<char> {
    match m {
        MemV::Temp(n, _) => "%"@ + strip_percent(n),
        MemV::Const(v, _) => v,
    }
}

/// `%` and then `n` without its leading `%`s.
fn temp_text(n: &String) -> (r: String)
    ensures
        r@ == "%"@ + strip_percent(n@),
{
    let s = n.as_str();
    let len = s.unicode_len();
    let mut i: usize = 0;
    proof {
        assert(n@.subrange(0, len as int) =~= n@);
    }
    while i < len && s.get_char(i) == '%'
        invariant
            len == n@.len(),
            s@ == n@,
            i <= len,
            strip_percent(n@) == strip_percent(n@.subrange(i as int, len as int)),
        decreases len - i,
    {
        proof {
            let sub = n@.subrange(i as int, len as int);
            assert(sub[0] == n@[i as int]);
            assert(sub.drop_first() =~= n@.subrange(i + 1, len as int));
        }
        i = i + 1;
    }
    let mut r = String::from_str("%");
    r.append(s.substring_char(i, len));
    r
}

/// A value as an operand: with its IR type in front when `include_type`.
pub open spec fn mem_ir(m: MemV, include_type: bool) -> Seq<char> {
    if include_type {
        llvm_type_spec(mem_type(m)) + " "@ + mem_text(m)
    } else {
        mem_text(m)
    }
}

impl MemoryValue {
    pub fn to_ir(&self, include_type: bool) -> (r: String)
        requires
            !(mem_type(self@) is List),
        ensures
            r@ == mem_ir(self@, include_type),
    {
        let (value, t) = match self {
            MemoryValue::Temp(n, t) => (temp_text(n), t),
            MemoryValue::Const(v, t) => (v.clone(), t),
        };
        if include_type {
            let mut s = t.llvm_type();
            s.append(" ");
            s.append(value.as_str());
            s
        } else {
            value
        }
    }

    pub fn duplicate(&self) -> (r: MemoryValue)
        ensures
            r@ == self@,
    {
        match self {
            MemoryValue::Temp(n, t) => MemoryValue::Temp(n.clone(), t.duplicate()),
            MemoryValue::Const(v, t) => MemoryValue::Const(v.clone(), t.duplicate()),
        }
    }
}

/// `<into> = load T, T* %<name>`
pub open spec fn load_line(name: Seq<char>, t: Type, into: MemV) -> Seq<char> {
    mem_ir(into, false) + " = load "@ + llvm_type_spec(t) + ", "@ + llvm_type_spec(t) + "* %"@ + name
}

/// `store <from>, T* %<name>`
pub open spec fn store_line(name: Seq<char>, t: Type, from: MemV) -> Seq<char> {
    "store "@ + mem_ir(from, true) + ", "@ + llvm_type_spec(t) + "* %"@ + name
}

/// A stack slot named after a source variable.
#[derive(Debug)]
pub struct Variable {
    pub name: String,
    pub type_: Type,
}

impl Variable {
    pub fn new(name: String, type_: Type) -> (r: Self)
        ensures
            r.name@ == name@,
            r.type_ == type_,
    {
        Self { name, type_ }
    }

    /// Loads the variable into `into`.
    pub fn load(&self, into: &MemoryValue) -> (r: String)
        requires
            !(self.type_ is List),
            !(mem_type(into@) is List),
        ensures
            r@ == load_line(self.name@, self.type_, into@),
    {
        let mut s = into.to_ir(false);
        let t = self.type_.llvm_type();
        s.append(" = load ");
        s.append(t.as_str());
        s.append(", ");
        s.append(t.as_str());
        s.append("* %");
        s.append(self.name.as_str());
        s
    }

    /// Stores `from` into the variable.
    pub fn store(&self, from: &MemoryValue) -> (r: String)
        requires
            !(self.type_ is List),
            !(mem_type(from@) is List),
        ensures
            r@ == store_line(self.name@, self.type_, from@),
    {
        let mut s = String::from_str("store ");
        let v = from.to_ir(true);
        s.append(v.as_str());
        s.append(", ");
        let t = self.type_.llvm_type();
        s.append(t.as_str());
        s.append("* %");
        s.append(self.name.as_str());
        s
    }
}


/// Names are never issued twice: minting a category again, from the counters that
/// the previous mint left, gives a different name.
pub proof fn lemma_mint_fresh(c: CountersV, cat: Seq<char>)
    requires
        mint_label(c, cat) is Some,
        mint_label(mint_label(c, cat)->Some_0.1, cat) is Some,
    ensures
        mint_label(c, cat)->Some_0.0 != mint_label(mint_label(c, cat)->Some_0.1, cat)->Some_0.0,
{
    let n = count_of(c, cat);
    let c1 = mint_label(c, cat)->Some_0.1;
    assert(count_of(c1, cat) == n + 1);
    let p = cat + "_"@;
    let x = decimal((n + 1) as nat);
    let y = decimal((n + 2) as nat);
    if p + x == p + y {
        assert(x =~= (p + x).subrange(p.len() as int, (p + x).len() as int));
        assert(y =~= (p + y).subrange(p.len() as int, (p + y).len() as int));
        lemma_decimal_injective((n + 1) as nat, (n + 2) as nat);
    }
}

} // verus!
