//! The dynamic value model: one closed family of runtime values and the
//! capability queries the renderer asks of them.

use vstd::prelude::*;

verus! {

/// The mathematical content of a runtime value.
pub enum Val {
    Bool(bool),
    Int(int),
    Str(Seq<char>),
    List(Seq<Val>),
    Record(Seq<(Seq<char>, Val)>),
}

/// One named attribute of a record value.
#[derive(Debug, PartialEq)]
pub struct Attr {
    pub name: String,
    pub value: BType,
}

/// A runtime value visible to templates.
#[derive(Debug, PartialEq)]
pub enum BType {
    Bool(bool),
    Int(i64),
    Str(String),
    List(Vec<BType>),
    Record(Vec<Attr>),
}

/// The contents of a sequence of values, element by element.
pub open spec fn views(items: Seq<BType>) -> Seq<Val>
    decreases items,
{
    Seq::new(
        items.len(),
        |i: int|
            if 0 <= i < items.len() {
                items[i].view()
            } else {
                Val::Bool(false)
            },
    )
}

/// The contents of a sequence of attributes, as name and value pairs.
pub open spec fn attr_views(attrs: Seq<Attr>) -> Seq<(Seq<char>, Val)>
    decreases attrs,
{
    Seq::new(
        attrs.len(),
        |i: int|
            if 0 <= i < attrs.len() {
                (attrs[i].name@, attrs[i].value.view())
            } else {
                (Seq::empty(), Val::Bool(false))
            },
    )
}

impl View for BType {
    type V = Val;

    open spec fn view(&self) -> Val
        decreases self,
    {
        match self {
            BType::Bool(b) => Val::Bool(*b),
            BType::Int(i) => Val::Int(*i as int),
            BType::Str(s) => Val::Str(s@),
            BType::List(v) => Val::List(views(v@)),
            BType::Record(a) => Val::Record(attr_views(a@)),
        }
    }
}

impl BType {
    /// An independently owned value with the same contents.
    pub fn duplicate(&self) -> (r: BType)
        ensures
            r@ == self@,
        decreases self,
    {
        match self {
            BType::Bool(b) => BType::Bool(*b),
            BType::Int(i) => BType::Int(*i),
            BType::Str(s) => BType::Str(s.clone()),
            BType::List(v) => BType::List(duplicate_items(v)),
            BType::Record(a) => BType::Record(duplicate_attrs(a)),
        }
    }
}

/// Independently owned copies of the given values, in the same order.
pub fn duplicate_items(v: &Vec<BType>) -> (out: Vec<BType>)
    ensures
        views(out@) == views(v@),
        out.len() == v.len(),
    decreases v,
{
    let mut out: Vec<BType> = Vec::new();
    let mut i: usize = 0;
    while i < v.len()
        invariant
            i <= v.len(),
            out.len() == i,
            forall|j: int| 0 <= j < i ==> out@[j]@ == v@[j]@,
        decreases v.len() - i,
    {
        out.push(v[i].duplicate());
        i += 1;
    }
    proof {
        assert(views(out@) =~= views(v@));
    }
    out
}

/// Independently owned copies of the given attributes, in the same order.
pub fn duplicate_attrs(a: &Vec<Attr>) -> (out: Vec<Attr>)
    ensures
        attr_views(out@) == attr_views(a@),
        out.len() == a.len(),
    decreases a,
{
    let mut out: Vec<Attr> = Vec::new();
    let mut i: usize = 0;
    while i < a.len()
        invariant
            i <= a.len(),
            out.len() == i,
            forall|j: int|
                0 <= j < i ==> out@[j].name@ == a@[j].name@ && out@[j].value@ == a@[j].value@,
        decreases a.len() - i,
    {
        out.push(Attr { name: a[i].name.clone(), value: a[i].value.duplicate() });
        i += 1;
    }
    proof {
        assert(attr_views(out@) =~= attr_views(a@));
    }
    out
}

/// The four arithmetic operations a value may support.
#[derive(Clone, Copy, PartialEq, Eq, Structural, Debug)]
pub enum Op {
    Add,
    Sub,
    Mul,
    Div,
}

/// Boolean conversion: false, zero and the empty text or list are false.
pub open spec fn truth(v: Val) -> bool {
    match v {
        Val::Bool(b) => b,
        Val::Int(i) => i != 0,
        Val::Str(s) => s.len() > 0,
        Val::List(l) => l.len() > 0,
        Val::Record(_) => true,
    }
}

/// Integer conversion: integers as they are, booleans as 0 and 1.
pub open spec fn int_of(v: Val) -> Option<int> {
    match v {
        Val::Bool(b) => Some(
            if b {
                1int
            } else {
                0int
            },
        ),
        Val::Int(i) => Some(i),
        _ => None,
    }
}

/// The text of one decimal digit.
pub open spec fn digit(d: int) -> Seq<char> {
    if d == 0 {
        "0"@
    } else if d == 1 {
        "1"@
    } else if d == 2 {
        "2"@
    } else if d == 3 {
        "3"@
    } else if d == 4 {
        "4"@
    } else if d == 5 {
        "5"@
    } else if d == 6 {
        "6"@
    } else if d == 7 {
        "7"@
    } else if d == 8 {
        "8"@
    } else {
        "9"@
    }
}

/// The decimal digits of a natural number, most significant first.
pub open spec fn decimal(n: nat) -> Seq<char>
    decreases n,
{
    if n < 10 {
        digit(n as int)
    } else {
        decimal(n / 10) + digit((n % 10) as int)
    }
}

/// The decimal text of an integer, with a leading minus sign below zero.
pub open spec fn int_text(i: int) -> Seq<char> {
    if i < 0 {
        "-"@ + decimal((-i) as nat)
    } else {
        decimal(i as nat)
    }
}

/// String conversion: defined for booleans, integers and text.
pub open spec fn text_of(v: Val) -> Option<Seq<char>> {
    match v {
        Val::Bool(b) => Some(
            if b {
                "true"@
            } else {
                "false"@
            },
        ),
        Val::Int(i) => Some(int_text(i)),
        Val::Str(s) => Some(s),
        _ => None,
    }
}

/// Iteration: the elements of a list, in order.
pub open spec fn items_of(v: Val) -> Option<Seq<Val>> {
    match v {
        Val::List(l) => Some(l),
        _ => None,
    }
}

/// The value of the first attribute with the given name.
pub open spec fn find_attr(attrs: Seq<(Seq<char>, Val)>, id: Seq<char>) -> Option<Val>
    decreases attrs.len(),
{
    if attrs.len() == 0 {
        None
    } else if attrs[0].0 == id {
        Some(attrs[0].1)
    } else {
        find_attr(attrs.skip(1), id)
    }
}

/// Attribute lookup: defined for records that hold the name.
pub open spec fn attr_of(v: Val, id: Seq<char>) -> Option<Val> {
    match v {
        Val::Record(a) => find_attr(a, id),
        _ => None,
    }
}

/// Division that rounds toward zero.
pub open spec fn quotient(x: int, d: int) -> int
    recommends
        d != 0,
{
    if x >= 0 && d > 0 {
        x / d
    } else if x < 0 && d < 0 {
        (-x) / (-d)
    } else if x < 0 {
        -((-x) / d)
    } else {
        -(x / (-d))
    }
}

/// The exact result of an operation on two integers, where it has one.
pub open spec fn exact(op: Op, x: int, y: int) -> Option<int> {
    match op {
        Op::Add => Some(x + y),
        Op::Sub => Some(x - y),
        Op::Mul => Some(x * y),
        Op::Div => if y == 0 {
            None
        } else {
            Some(quotient(x, y))
        },
    }
}

/// Arithmetic: an integer on the left, anything with an integer conversion
/// on the right, and a result that fits in 64 bits; otherwise unsupported.
pub open spec fn arith(op: Op, a: Val, b: Val) -> Option<Val> {
    match (a, int_of(b)) {
        (Val::Int(x), Some(y)) => match exact(op, x, y) {
            Some(n) => if i64::MIN <= n <= i64::MAX {
                Some(Val::Int(n))
            } else {
                None
            },
            None => None,
        },
        _ => None,
    }
}

/// The contents of an optional value.
pub open spec fn opt_view(v: Option<BType>) -> Option<Val> {
    match v {
        Some(b) => Some(b@),
        None => None,
    }
}

} // verus!
