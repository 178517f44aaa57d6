//! The capability interfaces of a value, and the built-in family's answers.

use crate::types::{
    arith, attr_views, int_of, items_of, opt_view, text_of, truth, views, Attr, BType, Op, Val,
};
use vstd::prelude::*;
use vstd::std_specs::convert::IntoSpec;
use vstd::string::StringExecFns;

verus! {

/// Wraps anything convertible into a value.
pub fn ex<V>(v: V) -> (r: BType) where V: Into<BType>
    ensures
        V::obeys_into_spec() ==> r == v.into_spec(),
{
    v.into()
}

impl From<bool> for BType {
    fn from(v: bool) -> (r: BType) {
        BType::Bool(v)
    }
}

impl vstd::std_specs::convert::FromSpecImpl<bool> for BType {
    open spec fn obeys_from_spec() -> bool {
        true
    }

    open spec fn from_spec(v: bool) -> BType {
        BType::Bool(v)
    }
}

impl From<i64> for BType {
    fn from(v: i64) -> (r: BType) {
        BType::Int(v)
    }
}

impl vstd::std_specs::convert::FromSpecImpl<i64> for BType {
    open spec fn obeys_from_spec() -> bool {
        true
    }

    open spec fn from_spec(v: i64) -> BType {
        BType::Int(v)
    }
}

/// The failure of a direct render: the value has no display form.
#[derive(Clone, Copy, PartialEq, Eq, Structural, Debug)]
pub struct FormatError;

/// An output sink that collects text.
pub struct Writer {
    pub buffer: String,
}

impl View for Writer {
    type V = Seq<char>;

    open spec fn view(&self) -> Seq<char> {
        self.buffer@
    }
}

impl Writer {
    /// An empty sink.
    pub fn new() -> (w: Writer)
        ensures
            w@ == Seq::<char>::empty(),
    {
        Writer { buffer: String::new() }
    }

    /// Appends the text to the sink.
    pub fn write_str(&mut self, s: &str) -> (r: Result<(), FormatError>)
        ensures
            r is Ok,
            final(self)@ == old(self)@ + s@,
    {
        self.buffer.append(s);
        Ok(())
    }
}

/// What a value is, as the capability contracts see it.
pub trait Model {
    spec fn model(&self) -> Val;
}

/// A value kind: every capability, and duplication.
pub trait Type: AsString + AsBool + AsInt + AsIterable + AsComposable + IArithm + IRender {
    /// An independently owned value that answers every query alike.
    fn iclone(&self) -> (r: BType)
        ensures
            r@ == self.model(),
    ;
}

/// Direct rendering into a sink.
pub trait IRender: Model {
    /// Writes the display form; a value without one leaves the sink as it was.
    fn render(&self, writer: &mut Writer) -> (r: Result<(), FormatError>)
        ensures
            match text_of(self.model()) {
                Some(t) => r is Ok && final(writer)@ == old(writer)@ + t,
                None => r is Err && final(writer)@ == old(writer)@,
            },
    ;
}

/// String conversion.
pub trait AsString: Model {
    fn is_string(&self) -> (r: bool)
        ensures
            r == (self.model() is Str),
    ;

    fn try_as_string(&self) -> (r: Option<String>)
        ensures
            match text_of(self.model()) {
                Some(t) => r is Some && r->0@ == t,
                None => r is None,
            },
    ;
}

/// Boolean conversion.
pub trait AsBool: Model {
    fn is_bool(&self) -> (r: bool)
        ensures
            r == (self.model() is Bool),
    ;

    fn to_bool(&self) -> (r: bool)
        ensures
            r == truth(self.model()),
    ;
}

/// Integer conversion.
pub trait AsInt: Model {
    fn is_int(&self) -> (r: bool)
        ensures
            r == (self.model() is Int),
    ;

    fn try_as_int(&self) -> (r: Option<i64>)
        ensures
            match int_of(self.model()) {
                Some(n) => r is Some && r->0 == n,
                None => r is None,
            },
    ;
}

/// Access to the iteration capability.
pub trait AsIterable: Model {
    fn is_iterable(&self) -> (r: bool)
        ensures
            r == (items_of(self.model()) is Some),
    ;

    fn try_as_iterable(&self) -> (r: Option<&Vec<BType>>)
        ensures
            match items_of(self.model()) {
                Some(items) => r is Some && views(r->0@) == items,
                None => r is None,
            },
    ;
}

/// Access to the attribute capability.
pub trait AsComposable: Model {
    fn is_composable(&self) -> (r: bool)
        ensures
            r == (self.model() is Record),
    ;

    fn try_as_composable(&self) -> (r: Option<&Vec<Attr>>)
        ensures
            match self.model() {
                Val::Record(a) => r is Some && attr_views(r->0@) == a,
                _ => r is None,
            },
    ;
}

/// Access to the indexing capability.
pub trait AsIndexable: Model {
    fn is_indexable(&self) -> (r: bool)
        ensures
            r == (items_of(self.model()) is Some),
    ;

    fn try_as_indexable(&self) -> (r: Option<&Vec<BType>>)
        ensures
            match items_of(self.model()) {
                Some(items) => r is Some && views(r->0@) == items,
                None => r is None,
            },
    ;
}

/// Access to the comparison capability.
pub trait AsPartialEq<T>: Model {
    fn is_partial_eq(&self) -> (r: bool)
        ensures
            r,
    ;

    fn try_as_partial_eq(&self) -> (r: Option<&Self>)
        ensures
            r == Some(self),
    ;
}

/// Comparison of contents.
pub trait IPartialEq<T> {
    /// Whether the two hold the same contents.
    spec fn equal(&self, other: &T) -> bool;

    fn eq(&self, other: &T) -> (r: bool)
        ensures
            r == self.equal(other),
    ;

    fn ne(&self, other: &T) -> (r: bool)
        ensures
            r == !self.equal(other),
    ;
}

/// Arithmetic against another value; `None` where the combination is
/// unsupported, the result does not fit, or the divisor is zero.
pub trait IArithm: Model {
    fn try_add(&self, other: &BType) -> (r: Option<BType>)
        ensures
            opt_view(r) == arith(Op::Add, self.model(), other@),
    ;

    fn try_sub(&self, other: &BType) -> (r: Option<BType>)
        ensures
            opt_view(r) == arith(Op::Sub, self.model(), other@),
    ;

    fn try_mul(&self, other: &BType) -> (r: Option<BType>)
        ensures
            opt_view(r) == arith(Op::Mul, self.model(), other@),
    ;

    fn try_div(&self, other: &BType) -> (r: Option<BType>)
        ensures
            opt_view(r) == arith(Op::Div, self.model(), other@),
    ;
}

/// Iteration over elements.
pub trait IIterable {
    /// The elements, in iteration order.
    spec fn values(&self) -> Seq<Val>;

    fn is_empty(&self) -> (r: bool)
        ensures
            r == (self.values().len() == 0),
    ;

    /// A fresh pass over the elements; the source is left as it was.
    fn ivalues(&self) -> (it: VIterator<'_>)
        ensures
            it.remaining() == self.values(),
    ;
}

/// Attribute lookup by name.
pub trait IComposable {
    /// The value found under a name, if any.
    spec fn attr(&self, id: Seq<char>) -> Option<Val>;

    fn get_attr(&self, id: &str) -> (r: Option<BType>)
        ensures
            opt_view(r) == self.attr(id@),
    ;
}

/// Element lookup by position.
pub trait IIndexable {
    /// The element at a position, if any.
    spec fn at(&self, index: int) -> Option<Val>;

    fn has_index(&self, index: usize) -> (r: bool)
        ensures
            r == (self.at(index as int) is Some),
    ;

    fn get_index(&self, index: usize) -> (r: Option<BType>)
        ensures
            opt_view(r) == self.at(index as int),
    ;
}

/// One pass over the elements of a list, handing out a copy of each.
pub struct VIterator<'a> {
    pub me: &'a Vec<BType>,
    pub pos: usize,
}

impl<'a> VIterator<'a> {
    /// The elements still to come, in order.
    pub open spec fn remaining(&self) -> Seq<Val> {
        if self.pos <= self.me@.len() {
            views(self.me@).skip(self.pos as int)
        } else {
            Seq::empty()
        }
    }

    /// Hands out the next element, or nothing once the pass is over.
    pub fn next(&mut self) -> (r: Option<BType>)
        ensures
            old(self).remaining().len() == 0 ==> r is None && *final(self) == *old(self),
            old(self).remaining().len() > 0 ==> r is Some && r->0@ == old(self).remaining()[0]
                && final(self).remaining() == old(self).remaining().skip(1)
                && final(self).me == old(self).me,
    {
        if self.pos < self.me.len() {
            let item = self.me[self.pos].duplicate();
            self.pos = self.pos + 1;
            proof {
                assert(final(self).remaining() =~= old(self).remaining().skip(1));
            }
            Some(item)
        } else {
            None
        }
    }
}

} // verus!
