use incrust::abc::{
    ex, AsBool, AsComposable, AsIndexable, AsInt, AsIterable, AsPartialEq, AsString, IArithm,
    IComposable, IIndexable, IIterable, IPartialEq, IRender, Type, Writer,
};
use incrust::btype::{apply, push_int, same_text, same_value};
use incrust::context::{GlobalContext, LoopState};
use incrust::container::Environment;
use incrust::types::{Attr, BType, Op};

fn s(text: &str) -> BType {
    BType::Str(text.to_string())
}

fn list(items: Vec<i64>) -> BType {
    BType::List(items.into_iter().map(BType::Int).collect())
}

fn record() -> BType {
    BType::Record(vec![
        Attr { name: "a".to_string(), value: BType::Int(1) },
        Attr { name: "b".to_string(), value: s("two") },
        Attr { name: "a".to_string(), value: BType::Int(3) },
    ])
}

#[test]
fn ex_wraps_booleans_and_integers() {
    assert_eq!(ex(true), BType::Bool(true));
    assert_eq!(ex(false), BType::Bool(false));
    assert_eq!(ex(42i64), BType::Int(42));
}

#[test]
fn integers_have_decimal_text() {
    assert_eq!(BType::Int(0).try_as_string(), Some("0".to_string()));
    assert_eq!(BType::Int(7).try_as_string(), Some("7".to_string()));
    assert_eq!(BType::Int(10).try_as_string(), Some("10".to_string()));
    assert_eq!(BType::Int(-5).try_as_string(), Some("-5".to_string()));
    assert_eq!(BType::Int(1234567890).try_as_string(), Some("1234567890".to_string()));
    assert_eq!(BType::Int(i64::MAX).try_as_string(), Some("9223372036854775807".to_string()));
    assert_eq!(BType::Int(i64::MIN).try_as_string(), Some("-9223372036854775808".to_string()));
}

#[test]
fn string_conversion_by_kind() {
    assert_eq!(BType::Bool(true).try_as_string(), Some("true".to_string()));
    assert_eq!(BType::Bool(false).try_as_string(), Some("false".to_string()));
    assert_eq!(s("hi").try_as_string(), Some("hi".to_string()));
    assert_eq!(list(vec![1]).try_as_string(), None);
    assert_eq!(record().try_as_string(), None);
    assert!(s("hi").is_string());
    assert!(!BType::Int(1).is_string());
}

#[test]
fn render_matches_string_conversion() {
    for v in [BType::Bool(true), BType::Bool(false), BType::Int(-120), BType::Int(0), s("a'{b")] {
        let mut w = Writer { buffer: "pre:".to_string() };
        assert_eq!(v.render(&mut w), Ok(()));
        assert_eq!(w.buffer, format!("pre:{}", v.try_as_string().unwrap()));
    }
}

#[test]
fn render_of_a_list_is_unsupported_and_writes_nothing() {
    let mut w = Writer { buffer: "pre".to_string() };
    assert!(list(vec![1, 2]).render(&mut w).is_err());
    assert!(record().render(&mut w).is_err());
    assert_eq!(w.buffer, "pre");
}

#[test]
fn writer_appends() {
    let mut w = Writer::new();
    assert_eq!(w.buffer, "");
    assert!(w.write_str("ab").is_ok());
    assert!(w.write_str("").is_ok());
    assert!(w.write_str("c\nd").is_ok());
    assert_eq!(w.buffer, "abc\nd");
}

#[test]
fn truthiness_by_kind() {
    assert!(BType::Bool(true).to_bool());
    assert!(!BType::Bool(false).to_bool());
    assert!(BType::Int(-1).to_bool());
    assert!(!BType::Int(0).to_bool());
    assert!(s("x").to_bool());
    assert!(!s("").to_bool());
    assert!(list(vec![0]).to_bool());
    assert!(!list(vec![]).to_bool());
    assert!(record().to_bool());
    assert!(BType::Bool(false).is_bool());
    assert!(!BType::Int(0).is_bool());
}

#[test]
fn integer_conversion_by_kind() {
    assert_eq!(BType::Bool(true).try_as_int(), Some(1));
    assert_eq!(BType::Bool(false).try_as_int(), Some(0));
    assert_eq!(BType::Int(-9).try_as_int(), Some(-9));
    assert_eq!(s("9").try_as_int(), None);
    assert_eq!(list(vec![9]).try_as_int(), None);
    assert!(BType::Int(1).is_int());
    assert!(!BType::Bool(true).is_int());
}

#[test]
fn arithmetic_on_integers() {
    let a = BType::Int(7);
    assert_eq!(a.try_add(&BType::Int(5)), Some(BType::Int(12)));
    assert_eq!(a.try_sub(&BType::Int(9)), Some(BType::Int(-2)));
    assert_eq!(a.try_mul(&BType::Int(-3)), Some(BType::Int(-21)));
    assert_eq!(a.try_div(&BType::Int(2)), Some(BType::Int(3)));
    assert_eq!(BType::Int(-7).try_div(&BType::Int(2)), Some(BType::Int(-3)));
    assert_eq!(BType::Int(7).try_div(&BType::Int(-2)), Some(BType::Int(-3)));
    assert_eq!(BType::Int(-7).try_div(&BType::Int(-2)), Some(BType::Int(3)));
    assert_eq!(a.try_add(&BType::Bool(true)), Some(BType::Int(8)));
    assert_eq!(a.try_op(Op::Mul, &BType::Int(6)), Some(BType::Int(42)));
}

#[test]
fn arithmetic_reports_unsupported() {
    let a = BType::Int(7);
    assert_eq!(a.try_add(&s("5")), None);
    assert_eq!(a.try_div(&BType::Int(0)), None);
    assert_eq!(BType::Int(i64::MAX).try_add(&BType::Int(1)), None);
    assert_eq!(BType::Int(i64::MIN).try_sub(&BType::Int(1)), None);
    assert_eq!(BType::Int(i64::MAX).try_mul(&BType::Int(2)), None);
    assert_eq!(BType::Int(i64::MIN).try_div(&BType::Int(-1)), None);
    assert_eq!(BType::Bool(true).try_add(&BType::Int(1)), None);
    assert_eq!(s("a").try_add(&s("b")), None);
    assert_eq!(list(vec![1]).try_mul(&BType::Int(2)), None);
}

fn collect(v: &BType) -> Vec<BType> {
    let mut it = v.try_as_iterable().unwrap().ivalues();
    let mut out = Vec::new();
    while let Some(x) = it.next() {
        out.push(x);
    }
    assert_eq!(it.next(), None);
    out
}

#[test]
fn iterating_twice_gives_equal_sequences() {
    let v = BType::List(vec![BType::Int(1), s("two"), list(vec![3, 4]), record()]);
    let a = collect(&v);
    let b = collect(&v);
    assert_eq!(a.len(), 4);
    assert_eq!(a, b);
    assert_eq!(a[0], BType::Int(1));
    assert_eq!(a[1], s("two"));
    assert_eq!(a[2], list(vec![3, 4]));
    assert_eq!(a[3], record());
    assert_eq!(v, BType::List(vec![BType::Int(1), s("two"), list(vec![3, 4]), record()]));
}

#[test]
fn iteration_applies_to_lists_only() {
    assert!(list(vec![]).is_iterable());
    assert!(list(vec![]).try_as_iterable().unwrap().is_empty());
    assert!(!list(vec![1]).try_as_iterable().unwrap().is_empty());
    assert!(!s("abc").is_iterable());
    assert!(s("abc").try_as_iterable().is_none());
    assert!(BType::Int(3).try_as_iterable().is_none());
    assert!(record().try_as_iterable().is_none());
}

#[test]
fn indexing_a_list() {
    let items = vec![BType::Int(10), BType::Int(20)];
    assert!(items.has_index(1));
    assert!(!items.has_index(2));
    assert_eq!(items.get_index(0), Some(BType::Int(10)));
    assert_eq!(items.get_index(1), Some(BType::Int(20)));
    assert_eq!(items.get_index(2), None);
}

#[test]
fn attribute_lookup_takes_the_first_match() {
    let r = record();
    assert!(r.is_composable());
    let attrs = r.try_as_composable().unwrap();
    assert_eq!(attrs.get_attr("a"), Some(BType::Int(1)));
    assert_eq!(attrs.get_attr("b"), Some(s("two")));
    assert_eq!(attrs.get_attr("c"), None);
    assert_eq!(attrs.get_attr(""), None);
    assert!(!BType::Int(1).is_composable());
    assert!(list(vec![1]).try_as_composable().is_none());
}

#[test]
fn clone_answers_every_query_alike() {
    for v in [BType::Bool(true), BType::Int(-3), s("x"), list(vec![1, 2]), record()] {
        let c = v.iclone();
        assert_eq!(c, v);
        assert_eq!(c.try_as_string(), v.try_as_string());
        assert_eq!(c.to_bool(), v.to_bool());
        assert_eq!(c.try_as_int(), v.try_as_int());
        assert_eq!(c.is_iterable(), v.is_iterable());
        assert_eq!(c.duplicate(), v);
    }
}

#[test]
fn loop_state_tracks_the_first_iteration() {
    let first = LoopState::new(false);
    assert!(first.is_first());
    let second = first.next(false);
    assert!(!second.is_first());
    assert!(!second.next(false).is_first());
    let shown = first.to_value();
    assert_eq!(shown.try_as_composable().unwrap().get_attr("first"), Some(BType::Bool(true)));
    let shown = second.to_value();
    assert_eq!(shown.try_as_composable().unwrap().get_attr("first"), Some(BType::Bool(false)));
}

#[test]
fn global_context_accessors() {
    let env = Environment { filters: vec![], templates: vec![] };
    let g = GlobalContext::new(&env, vec![], 3);
    assert!(g.template().is_none());
    assert!(g.stack().is_empty());
    assert_eq!(g.limit, 3);
    assert!(g.env().filters.is_empty());
}

#[test]
fn equality_compares_contents() {
    let samples = || vec![BType::Bool(true), BType::Int(1), s("1"), s(""), list(vec![1]), list(vec![1, 2]), list(vec![]), record()];
    let a = samples();
    let b = samples();
    for i in 0..a.len() {
        for j in 0..b.len() {
            assert_eq!(same_value(&a[i], &b[j]), i == j);
            assert_eq!(IPartialEq::eq(&a[i], &b[j]), i == j);
            assert_eq!(IPartialEq::ne(&a[i], &b[j]), i != j);
        }
    }
    let shorter = BType::Record(vec![Attr { name: "a".to_string(), value: BType::Int(1) }]);
    assert!(!same_value(&record(), &shorter));
    let renamed = BType::Record(vec![Attr { name: "b".to_string(), value: BType::Int(1) }]);
    assert!(!same_value(&renamed, &shorter));
    assert!(same_text("ab", "ab"));
    assert!(!same_text("ab", "aB"));
    assert!(!same_text("ab", "abc"));
    assert!(same_text("", ""));
}

#[test]
fn indexable_and_comparable_capabilities() {
    assert!(list(vec![1]).is_indexable());
    assert!(!s("abc").is_indexable());
    assert_eq!(list(vec![4, 5]).try_as_indexable().unwrap().get_index(1), Some(BType::Int(5)));
    assert!(record().try_as_indexable().is_none());
    assert!(AsPartialEq::<BType>::is_partial_eq(&record()));
    assert_eq!(AsPartialEq::<BType>::try_as_partial_eq(&BType::Int(2)), Some(&BType::Int(2)));
}

#[test]
fn integer_helpers() {
    let mut out = "n=".to_string();
    push_int(&mut out, -40);
    push_int(&mut out, 205);
    assert_eq!(out, "n=-40205");
    assert_eq!(apply(Op::Add, 2, 3), Some(5));
    assert_eq!(apply(Op::Sub, 2, 3), Some(-1));
    assert_eq!(apply(Op::Mul, i64::MIN, -1), None);
    assert_eq!(apply(Op::Div, 9, -2), Some(-4));
    assert_eq!(apply(Op::Div, 9, 0), None);
}
