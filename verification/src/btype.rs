//! The built-in value family's implementation of every capability.

use crate::abc::{
    AsBool, AsComposable, AsIndexable, AsInt, AsIterable, AsPartialEq, AsString, FormatError,
    IArithm, IComposable, IIndexable, IIterable, IPartialEq, IRender, Model, Type, VIterator,
    Writer,
};
use crate::types::{
    arith, attr_views, decimal, digit, exact, find_attr, int_text, opt_view, views, Attr, BType, Op,
    Val,
};
use vstd::prelude::*;
use vstd::string::StringExecFns;

verus! {

/// Whether two pieces of text hold the same characters.
pub fn same_text(a: &str, b: &str) -> (r: bool)
    ensures
        r == (a@ == b@),
{
    let x = String::from_str(a);
    let y = String::from_str(b);
    x == y
}

/// Appends one decimal digit.
fn push_digit(out: &mut String, d: u64)
    requires
        d < 10,
    ensures
        final(out)@ == old(out)@ + digit(d as int),
{
    if d == 0 {
        out.append("0");
    } else if d == 1 {
        out.append("1");
    } else if d == 2 {
        out.append("2");
    } else if d == 3 {
        out.append("3");
    } else if d == 4 {
        out.append("4");
    } else if d == 5 {
        out.append("5");
    } else if d == 6 {
        out.append("6");
    } else if d == 7 {
        out.append("7");
    } else if d == 8 {
        out.append("8");
    } else {
        out.append("9");
    }
}

/// Appends the decimal digits of a number.
fn push_decimal(out: &mut String, n: u64)
    ensures
        final(out)@ == old(out)@ + decimal(n as nat),
    decreases n,
{
    if n < 10 {
        push_digit(out, n);
    } else {
        push_decimal(out, n / 10);
        push_digit(out, n % 10);
        proof {
            assert(final(out)@ =~= old(out)@ + (decimal((n / 10) as nat) + digit((n % 10) as int)));
        }
    }
}

/// Appends the decimal text of an integer.
pub fn push_int(out: &mut String, i: i64)
    ensures
        final(out)@ == old(out)@ + int_text(i as int),
{
    if i < 0 {
        out.append("-");
        let magnitude: u64 = if i == i64::MIN {
            9223372036854775808u64
        } else {
            (-i) as u64
        };
        push_decimal(out, magnitude);
        proof {
            assert(final(out)@ =~= old(out)@ + ("-"@ + decimal((-i) as nat)));
        }
    } else {
        push_decimal(out, i as u64);
    }
}

/// The result of an operation on two integers, where it exists and fits.
pub fn apply(op: Op, x: i64, y: i64) -> (r: Option<i64>)
    ensures
        match exact(op, x as int, y as int) {
            Some(n) => if i64::MIN <= n <= i64::MAX {
                r == Some(n as i64)
            } else {
                r is None
            },
            None => r is None,
        },
{
    match op {
        Op::Add => x.checked_add(y),
        Op::Sub => x.checked_sub(y),
        Op::Mul => x.checked_mul(y),
        Op::Div => x.checked_div(y),
    }
}

impl BType {
    /// Arithmetic against another value; unsupported combinations give nothing.
    pub fn try_op(&self, op: Op, other: &BType) -> (r: Option<BType>)
        ensures
            opt_view(r) == arith(op, self@, other@),
    {
        match self {
            BType::Int(x) => match other.try_as_int() {
                Some(y) => match apply(op, *x, y) {
                    Some(n) => Some(BType::Int(n)),
                    None => None,
                },
                None => None,
            },
            _ => None,
        }
    }
}

impl Model for BType {
    open spec fn model(&self) -> Val {
        self@
    }
}

impl Type for BType {
    fn iclone(&self) -> (r: BType) {
        self.duplicate()
    }
}

impl AsString for BType {
    fn is_string(&self) -> (r: bool) {
        match self {
            BType::Str(_) => true,
            _ => false,
        }
    }

    fn try_as_string(&self) -> (r: Option<String>) {
        match self {
            BType::Bool(b) => Some(
                if *b {
                    String::from_str("true")
                } else {
                    String::from_str("false")
                },
            ),
            BType::Int(i) => {
                let mut out = String::new();
                push_int(&mut out, *i);
                proof {
                    assert(out@ =~= int_text(*i as int));
                }
                Some(out)
            },
            BType::Str(s) => Some(s.clone()),
            _ => None,
        }
    }
}

impl IRender for BType {
    fn render(&self, writer: &mut Writer) -> (r: Result<(), FormatError>) {
        match self.try_as_string() {
            Some(t) => writer.write_str(t.as_str()),
            None => Err(FormatError),
        }
    }
}

impl AsBool for BType {
    fn is_bool(&self) -> (r: bool) {
        match self {
            BType::Bool(_) => true,
            _ => false,
        }
    }

    fn to_bool(&self) -> (r: bool) {
        match self {
            BType::Bool(b) => *b,
            BType::Int(i) => *i != 0,
            BType::Str(s) => s.as_str().unicode_len() > 0,
            BType::List(l) => {
                proof {
                    assert(views(l@).len() == l@.len());
                }
                l.len() > 0
            },
            BType::Record(_) => true,
        }
    }
}

impl AsInt for BType {
    fn is_int(&self) -> (r: bool) {
        match self {
            BType::Int(_) => true,
            _ => false,
        }
    }

    fn try_as_int(&self) -> (r: Option<i64>) {
        match self {
            BType::Bool(b) => Some(
                if *b {
                    1i64
                } else {
                    0i64
                },
            ),
            BType::Int(i) => Some(*i),
            _ => None,
        }
    }
}

impl AsIterable for BType {
    fn is_iterable(&self) -> (r: bool) {
        match self {
            BType::List(_) => true,
            _ => false,
        }
    }

    fn try_as_iterable(&self) -> (r: Option<&Vec<BType>>) {
        match self {
            BType::List(l) => Some(l),
            _ => None,
        }
    }
}

impl AsComposable for BType {
    fn is_composable(&self) -> (r: bool) {
        match self {
            BType::Record(_) => true,
            _ => false,
        }
    }

    fn try_as_composable(&self) -> (r: Option<&Vec<Attr>>) {
        match self {
            BType::Record(a) => Some(a),
            _ => None,
        }
    }
}

impl AsIndexable for BType {
    fn is_indexable(&self) -> (r: bool) {
        self.is_iterable()
    }

    fn try_as_indexable(&self) -> (r: Option<&Vec<BType>>) {
        self.try_as_iterable()
    }
}

impl AsPartialEq<BType> for BType {
    fn is_partial_eq(&self) -> (r: bool) {
        true
    }

    fn try_as_partial_eq(&self) -> (r: Option<&Self>) {
        Some(self)
    }
}

impl IPartialEq<BType> for BType {
    open spec fn equal(&self, other: &BType) -> bool {
        self@ == other@
    }

    fn eq(&self, other: &BType) -> (r: bool) {
        same_value(self, other)
    }

    fn ne(&self, other: &BType) -> (r: bool) {
        !same_value(self, other)
    }
}

/// Whether two values hold the same contents.
pub fn same_value(a: &BType, b: &BType) -> (r: bool)
    ensures
        r == (a@ == b@),
    decreases a,
{
    match (a, b) {
        (BType::Bool(x), BType::Bool(y)) => *x == *y,
        (BType::Int(x), BType::Int(y)) => *x == *y,
        (BType::Str(x), BType::Str(y)) => same_text(x.as_str(), y.as_str()),
        (BType::List(x), BType::List(y)) => same_items(x, y),
        (BType::Record(x), BType::Record(y)) => same_attrs(x, y),
        _ => false,
    }
}

/// Whether two lists hold the same contents in the same order.
pub fn same_items(a: &Vec<BType>, b: &Vec<BType>) -> (r: bool)
    ensures
        r == (views(a@) == views(b@)),
    decreases a,
{
    if a.len() != b.len() {
        proof {
            assert(views(a@).len() != views(b@).len());
        }
        return false;
    }
    let mut i: usize = 0;
    while i < a.len()
        invariant
            i <= a.len(),
            a.len() == b.len(),
            forall|j: int| 0 <= j < i ==> a@[j]@ == b@[j]@,
        decreases a.len() - i,
    {
        if !same_value(&a[i], &b[i]) {
            proof {
                assert(views(a@)[i as int] != views(b@)[i as int]);
            }
            return false;
        }
        i += 1;
    }
    proof {
        assert(views(a@) =~= views(b@));
    }
    true
}

/// Whether two attribute lists hold the same names and contents in the
/// same order.
pub fn same_attrs(a: &Vec<Attr>, b: &Vec<Attr>) -> (r: bool)
    ensures
        r == (attr_views(a@) == attr_views(b@)),
    decreases a,
{
    if a.len() != b.len() {
        proof {
            assert(attr_views(a@).len() != attr_views(b@).len());
        }
        return false;
    }
    let mut i: usize = 0;
    while i < a.len()
        invariant
            i <= a.len(),
            a.len() == b.len(),
            forall|j: int|
                0 <= j < i ==> a@[j].name@ == b@[j].name@ && a@[j].value@ == b@[j].value@,
        decreases a.len() - i,
    {
        if !same_text(a[i].name.as_str(), b[i].name.as_str()) || !same_value(
            &a[i].value,
            &b[i].value,
        ) {
            proof {
                assert(attr_views(a@)[i as int] != attr_views(b@)[i as int]);
            }
            return false;
        }
        i += 1;
    }
    proof {
        assert(attr_views(a@) =~= attr_views(b@));
    }
    true
}

impl IArithm for BType {
    fn try_add(&self, other: &BType) -> (r: Option<BType>) {
        self.try_op(Op::Add, other)
    }

    fn try_sub(&self, other: &BType) -> (r: Option<BType>) {
        self.try_op(Op::Sub, other)
    }

    fn try_mul(&self, other: &BType) -> (r: Option<BType>) {
        self.try_op(Op::Mul, other)
    }

    fn try_div(&self, other: &BType) -> (r: Option<BType>) {
        self.try_op(Op::Div, other)
    }
}

impl IIterable for Vec<BType> {
    open spec fn values(&self) -> Seq<Val> {
        views(self@)
    }

    fn is_empty(&self) -> (r: bool) {
        self.len() == 0
    }

    fn ivalues(&self) -> (it: VIterator<'_>) {
        let it = VIterator { me: self, pos: 0 };
        proof {
            assert(it.remaining() =~= views(self@));
        }
        it
    }
}

impl IIndexable for Vec<BType> {
    open spec fn at(&self, index: int) -> Option<Val> {
        if 0 <= index < self@.len() {
            Some(self@[index]@)
        } else {
            None
        }
    }

    fn has_index(&self, index: usize) -> (r: bool) {
        index < self.len()
    }

    fn get_index(&self, index: usize) -> (r: Option<BType>) {
        if index < self.len() {
            Some(self[index].duplicate())
        } else {
            None
        }
    }
}

impl IComposable for Vec<Attr> {
    open spec fn attr(&self, id: Seq<char>) -> Option<Val> {
        find_attr(attr_views(self@), id)
    }

    fn get_attr(&self, id: &str) -> (r: Option<BType>) {
        let ghost all = attr_views(self@);
        let mut i: usize = 0;
        proof {
            assert(all.skip(0) =~= all);
        }
        while i < self.len()
            invariant
                i <= self.len(),
                all == attr_views(self@),
                find_attr(all, id@) == find_attr(all.skip(i as int), id@),
            decreases self.len() - i,
        {
            proof {
                assert(all.skip(i as int).skip(1) =~= all.skip(i as int + 1));
            }
            if same_text(self[i].name.as_str(), id) {
                return Some(self[i].value.duplicate());
            }
            i += 1;
        }
        None
    }
}

} // verus!
