use phpxx::builtins::{
    aka, count, eq, eq_impl, eq_impl_arr, get, lt, lt_impl, render, repr, uid_of, visualize,
};
use phpxx::exprs::{NumberExpr, StringExpr};
use phpxx::host::{Answer, Memo, Operator, Query};
use phpxx::number::{number_is_nan, number_is_true, number_less, numbers_equal, ONE, ZERO};
use phpxx::value::{array_items, array_len, ArrayExpr, Value};

const DEPTH: usize = 8;

fn num(x: f64) -> Value {
    Value::Number(x.to_bits())
}

fn text(s: &str) -> Value {
    Value::String(s.to_string())
}

fn array(id: usize) -> Value {
    Value::Array(ArrayExpr { id, spread: false })
}

fn memo_with(pairs: Vec<(Query, Answer)>) -> Memo {
    let mut memo = Memo::new();
    for (query, answer) in pairs {
        memo.record(query, answer);
    }
    memo
}

#[test]
fn number_constants() {
    assert_eq!(ZERO, 0.0f64.to_bits());
    assert_eq!(ONE, 1.0f64.to_bits());
}

#[test]
fn number_comparisons_follow_the_values() {
    let samples = [
        0.0,
        -0.0,
        1.0,
        -1.0,
        0.5,
        -2.5,
        1e300,
        -1e300,
        5e-324,
        -5e-324,
        f64::INFINITY,
        f64::NEG_INFINITY,
        f64::NAN,
        f64::MAX,
        f64::MIN,
    ];
    for a in samples {
        assert_eq!(number_is_nan(a.to_bits()), a.is_nan());
        assert_eq!(number_is_true(a.to_bits()), a != 0.0);
        for b in samples {
            assert_eq!(numbers_equal(a.to_bits(), b.to_bits()), a == b);
            assert_eq!(number_less(a.to_bits(), b.to_bits()), a < b);
        }
    }
}

#[test]
fn memo_keeps_the_newest_fitting_answer() {
    let mut memo = Memo::new();
    assert_eq!(memo.number(Query::Format(1)), Err(Query::Format(1)));
    memo.record(Query::Format(1), Answer::Number(5));
    assert_eq!(memo.entries.len(), 0);
    memo.record(Query::Format(1), Answer::Text("a".to_string()));
    memo.record(Query::Format(1), Answer::Text("b".to_string()));
    assert_eq!(memo.text(Query::Format(1)), Ok("b".to_string()));
    assert_eq!(memo.text(Query::Format(2)), Err(Query::Format(2)));
    memo.record(Query::ToInteger(7), Answer::Integer(-3));
    assert_eq!(memo.integer(Query::ToInteger(7)), Ok(-3));
    memo.record(Query::Parse("x".to_string()), Answer::Number(9));
    assert_eq!(memo.number(Query::Parse("x".to_string())), Ok(9));
    assert_eq!(memo.integer(Query::Parse("x".to_string())), Err(Query::Parse("x".to_string())));
    memo.clear();
    assert_eq!(memo.number(Query::Parse("x".to_string())), Err(Query::Parse("x".to_string())));
}

#[test]
fn queries_accept_answers_of_their_kind() {
    assert!(Query::Format(0).accepts(&Answer::Text(String::new())));
    assert!(!Query::Format(0).accepts(&Answer::Number(0)));
    assert!(Query::ReadLine.accepts(&Answer::Text(String::new())));
    assert!(Query::Parse(String::new()).accepts(&Answer::Number(0)));
    assert!(Query::Compute(Operator::Plus, 0, 0).accepts(&Answer::Number(0)));
    assert!(Query::FromInteger(0).accepts(&Answer::Number(0)));
    assert!(Query::ToInteger(0).accepts(&Answer::Integer(0)));
    assert!(!Query::ToInteger(0).accepts(&Answer::Number(0)));
    assert!(Query::Format(3).same(&Query::Format(3)));
    assert!(!Query::Format(3).same(&Query::ToInteger(3)));
    assert!(!Query::Parse("a".to_string()).same(&Query::Parse("b".to_string())));
}

#[test]
fn evaluate_keeps_the_value_and_an_arrays_identity() {
    assert_eq!(num(2.5).evaluate(), num(2.5));
    assert_eq!(text("a").evaluate(), text("a"));
    assert_eq!(Value::Void.evaluate(), Value::Void);
    let copy = array(3).evaluate();
    assert_eq!(uid_of(&copy), Some(3));
    assert_eq!(uid_of(&array(3)), uid_of(&copy));
    assert_eq!(uid_of(&num(1.0)), None);
    assert_eq!(ArrayExpr { id: 4, spread: true }.uid(), 4);
}

#[test]
fn resolved_takes_the_spread_mark_away() {
    assert_eq!(Value::Array(ArrayExpr { id: 2, spread: true }).resolved(), array(2));
    assert_eq!(text("a").resolved(), text("a"));
}

#[test]
fn coercion_to_number() {
    let store = vec![vec![num(1.0), num(2.0)]];
    let memo = memo_with(vec![
        (Query::Parse("12".to_string()), Answer::Number(12.0f64.to_bits())),
        (Query::FromInteger(2), Answer::Number(2.0f64.to_bits())),
        (Query::FromInteger(0), Answer::Number(0.0f64.to_bits())),
    ]);
    assert_eq!(NumberExpr::coerce_to_number(&num(3.0), &store, &memo), Ok(3.0f64.to_bits()));
    assert_eq!(NumberExpr::coerce_to_number(&text("12"), &store, &memo), Ok(12.0f64.to_bits()));
    assert_eq!(
        NumberExpr::coerce_to_number(&text("13"), &store, &memo),
        Err(Query::Parse("13".to_string()))
    );
    assert_eq!(NumberExpr::coerce_to_number(&array(0), &store, &memo), Ok(2.0f64.to_bits()));
    assert_eq!(NumberExpr::coerce_to_number(&array(9), &store, &memo), Ok(0.0f64.to_bits()));
    assert_eq!(NumberExpr::coerce_to_number(&Value::Void, &store, &memo), Ok(ZERO));
    assert_eq!(NumberExpr::is_true(&num(0.0), &store, &memo), Ok(false));
    assert_eq!(NumberExpr::is_true(&text("12"), &store, &memo), Ok(true));
    assert_eq!(NumberExpr::is_true(&Value::Void, &store, &memo), Ok(false));
    assert_eq!(
        NumberExpr::coerce_to_integer(&num(2.5), &store, &memo),
        Err(Query::ToInteger(2.5f64.to_bits()))
    );
}

#[test]
fn coercion_to_string() {
    let memo = memo_with(vec![(Query::Format(1.5f64.to_bits()), Answer::Text("1.5".to_string()))]);
    assert_eq!(StringExpr::coerce_to_string(&text("a"), &memo), Ok("a".to_string()));
    assert_eq!(StringExpr::coerce_to_string(&num(1.5), &memo), Ok("1.5".to_string()));
    assert_eq!(
        StringExpr::coerce_to_string(&num(2.5), &memo),
        Err(Query::Format(2.5f64.to_bits()))
    );
    assert_eq!(StringExpr::coerce_to_string(&Value::Void, &memo), Ok(String::new()));
    assert_eq!(StringExpr::coerce_to_string(&array(0), &memo), Ok(String::new()));
}

#[test]
fn multiply_string_repeats() {
    assert_eq!(StringExpr::multiply_string("ab", 3), "ababab");
    assert_eq!(StringExpr::multiply_string("ab", 0), "");
    assert_eq!(StringExpr::multiply_string("", 5), "");
}

#[test]
fn number_operators_ask_the_host() {
    let store = vec![];
    let one = 1.0f64.to_bits();
    let two = 2.0f64.to_bits();
    let memo = memo_with(vec![
        (Query::Compute(Operator::Plus, one, two), Answer::Number(3.0f64.to_bits())),
        (Query::Compute(Operator::Minus, one, two), Answer::Number((-1.0f64).to_bits())),
        (Query::Compute(Operator::Multiply, one, two), Answer::Number(2.0f64.to_bits())),
        (Query::Compute(Operator::Divide, one, two), Answer::Number(0.5f64.to_bits())),
    ]);
    assert_eq!(num(1.0).plus(&num(2.0), &store, &memo), Ok(num(3.0)));
    assert_eq!(num(1.0).minus(&num(2.0), &store, &memo), Ok(num(-1.0)));
    assert_eq!(num(1.0).multiply(&num(2.0), &store, &memo), Ok(num(2.0)));
    assert_eq!(num(1.0).divide(&num(2.0), &store, &memo), Ok(num(0.5)));
    assert_eq!(num(1.0).apply(Operator::Plus, &num(2.0), &store, &memo), Ok(num(3.0)));
    assert_eq!(
        num(2.0).plus(&num(1.0), &store, &memo),
        Err(Query::Compute(Operator::Plus, two, one))
    );
    assert_eq!(num(1.0).plus(&text("2"), &store, &memo), Err(Query::Parse("2".to_string())));
}

#[test]
fn string_operators() {
    let store = vec![];
    let memo = memo_with(vec![
        (Query::ToInteger(2.0f64.to_bits()), Answer::Integer(2)),
        (Query::ToInteger((-2.0f64).to_bits()), Answer::Integer(-2)),
        (Query::ToInteger(f64::MIN.to_bits()), Answer::Integer(i64::MIN)),
        (Query::FromInteger(2), Answer::Number(2.0f64.to_bits())),
    ]);
    assert_eq!(text("ab").plus(&text("cd"), &store, &memo), Ok(text("abcd")));
    assert_eq!(text("ab").plus(&Value::Void, &store, &memo), Ok(text("ab")));
    assert_eq!(text("abc").minus(&num(2.0), &store, &memo), Ok(text("a")));
    assert_eq!(text("abc").minus(&num(-2.0), &store, &memo), Ok(text("bc")));
    assert_eq!(text("abc").minus(&num(f64::MIN), &store, &memo), Ok(text("abc")));
    assert_eq!(text("abc").minus(&Value::Void, &store, &memo), Ok(text("")));
    assert_eq!(text("abc").minus(&array(0), &store, &memo), Ok(text("")));
    assert_eq!(text("abc").multiply(&num(2.0), &store, &memo), Ok(text("abcabc")));
    assert_eq!(text("abc").multiply(&num(-2.0), &store, &memo), Ok(text("cbacba")));
    assert_eq!(text("a\u{301}b").multiply(&num(-2.0), &store, &memo), Ok(text("ba\u{301}ba\u{301}")));
    assert_eq!(text("a\u{301}b").minus(&num(2.0), &store, &memo), Ok(text("")));
    assert_eq!(text("xaxbx").divide(&text("x"), &store, &memo), Err(Query::FromInteger(3)));
    assert_eq!(text("xax").divide(&text("x"), &store, &memo), Ok(num(2.0)));
    assert_eq!(text("xax").divide(&Value::Void, &store, &memo), Ok(Value::Number(ZERO)));
    assert_eq!(text("10").minus(&text("4"), &store, &memo), Err(Query::Parse("10".to_string())));
}

#[test]
fn void_and_array_operators_yield_void() {
    let store = vec![vec![]];
    let memo = Memo::new();
    for op in [Operator::Plus, Operator::Minus, Operator::Multiply, Operator::Divide] {
        assert_eq!(Value::Void.apply(op, &num(1.0), &store, &memo), Ok(Value::Void));
        assert_eq!(array(0).apply(op, &num(1.0), &store, &memo), Ok(Value::Void));
    }
}

#[test]
fn equality_is_reflexive_for_every_kind() {
    let store = vec![vec![num(1.0), text("a")], vec![]];
    let memo = Memo::new();
    for value in [num(1.0), num(-0.0), text("a"), text(""), Value::Void, array(0), array(1)] {
        assert_eq!(eq_impl(&value, &value, &store, &memo, DEPTH), Ok(true));
    }
    assert_eq!(eq_impl(&num(f64::NAN), &num(f64::NAN), &store, &memo, DEPTH), Ok(false));
}

#[test]
fn equality_is_symmetric_within_a_kind() {
    let store = vec![];
    let memo = Memo::new();
    let pairs = [
        (num(1.0), num(1.0)),
        (num(1.0), num(2.0)),
        (num(0.0), num(-0.0)),
        (text("a"), text("a")),
        (text("a"), text("b")),
        (Value::Void, Value::Void),
    ];
    for (a, b) in pairs {
        assert_eq!(
            eq_impl(&a, &b, &store, &memo, DEPTH),
            eq_impl(&b, &a, &store, &memo, DEPTH)
        );
    }
}

#[test]
fn equality_across_kinds_goes_by_the_left_side() {
    let store = vec![];
    let memo = memo_with(vec![
        (Query::Format(1.0f64.to_bits()), Answer::Text("1".to_string())),
        (Query::Parse("1.0".to_string()), Answer::Number(1.0f64.to_bits())),
    ]);
    assert_eq!(eq_impl(&text("1.0"), &num(1.0), &store, &memo, DEPTH), Ok(false));
    assert_eq!(eq_impl(&num(1.0), &text("1.0"), &store, &memo, DEPTH), Ok(true));
    assert_eq!(eq_impl(&text(""), &Value::Void, &store, &memo, DEPTH), Ok(true));
    assert_eq!(eq_impl(&Value::Void, &text(""), &store, &memo, DEPTH), Ok(false));
    assert_eq!(eq_impl(&array(0), &num(0.0), &store, &memo, DEPTH), Ok(false));
}

#[test]
fn arrays_equal_by_items_or_identity() {
    let store = vec![
        vec![num(1.0), text("a"), array(2)],
        vec![num(1.0), text("a"), array(3)],
        vec![num(5.0)],
        vec![num(5.0)],
        vec![num(1.0), text("a"), array(5)],
        vec![num(6.0)],
    ];
    let memo = Memo::new();
    assert_eq!(eq_impl_arr(0, 1, &store, &memo, DEPTH), Ok(true));
    assert_eq!(eq_impl_arr(0, 0, &store, &memo, DEPTH), Ok(true));
    assert_eq!(eq_impl_arr(0, 4, &store, &memo, DEPTH), Ok(false));
    assert_eq!(eq_impl_arr(0, 2, &store, &memo, DEPTH), Ok(false));
    assert_eq!(eq_impl_arr(0, 1, &store, &memo, 1), Ok(false));
    assert_eq!(eq_impl_arr(2, 3, &store, &memo, 1), Ok(true));
    assert_eq!(eq_impl_arr(0, 1, &store, &memo, 0), Ok(false));
    assert_eq!(eq_impl_arr(7, 7, &store, &memo, 0), Ok(true));
    assert_eq!(eq_impl_arr(7, 8, &store, &memo, 0), Ok(true));
    let empties: Vec<Vec<Value>> = vec![vec![], vec![]];
    assert_eq!(eq_impl_arr(0, 1, &empties, &memo, 0), Ok(true));
    assert_eq!(eq(&vec![array(0), array(1)], &empties, &memo), Ok(Value::Number(ONE)));
    assert_eq!(aka(&vec![array(0), array(1)]), Value::Number(ZERO));
    assert_eq!(aka(&vec![array(0), array(0)]), Value::Number(ONE));
    assert_eq!(aka(&vec![]), Value::Number(ONE));
    assert_eq!(aka(&vec![num(1.0)]), Value::Number(ONE));
}

#[test]
fn an_array_that_holds_itself_ends_comparison_and_rendering() {
    let store = vec![vec![array(0)], vec![array(1)]];
    let memo = Memo::new();
    assert_eq!(eq_impl_arr(0, 1, &store, &memo, 5), Ok(false));
    assert_eq!(visualize(&array(0), &store, &memo, 2), Ok("[[[...]]]".to_string()));
}

#[test]
fn chains() {
    let store = vec![];
    let memo = Memo::new();
    assert_eq!(eq(&vec![num(1.0), num(1.0), num(1.0)], &store, &memo), Ok(Value::Number(ONE)));
    assert_eq!(eq(&vec![num(1.0), num(1.0), num(2.0)], &store, &memo), Ok(Value::Number(ZERO)));
    assert_eq!(eq(&vec![], &store, &memo), Ok(Value::Number(ONE)));
    assert_eq!(lt(&vec![num(1.0), num(2.0), num(3.0)], &store, &memo), Ok(Value::Number(ONE)));
    assert_eq!(lt(&vec![num(1.0), num(2.0), num(2.0)], &store, &memo), Ok(Value::Number(ZERO)));
    assert_eq!(lt(&vec![num(1.0)], &store, &memo), Ok(Value::Number(ONE)));
    assert_eq!(lt_impl(&text("a"), &text("b"), &store, &memo), Ok(true));
    assert_eq!(lt_impl(&Value::Void, &num(1.0), &store, &memo), Ok(true));
    assert_eq!(lt_impl(&Value::Void, &num(0.0), &store, &memo), Ok(false));
    assert_eq!(
        eq(&vec![num(1.0), text("x")], &store, &memo),
        Err(Query::Parse("x".to_string()))
    );
}

#[test]
fn repr_count_get() {
    let store = vec![vec![num(7.0), num(8.0)]];
    let memo = memo_with(vec![
        (Query::FromInteger(2), Answer::Number(2.0f64.to_bits())),
        (Query::FromInteger(3), Answer::Number(3.0f64.to_bits())),
        (Query::ToInteger(1.0f64.to_bits()), Answer::Integer(1)),
        (Query::ToInteger(9.0f64.to_bits()), Answer::Integer(9)),
        (Query::ToInteger((-1.0f64).to_bits()), Answer::Integer(-1)),
    ]);
    assert_eq!(repr(&vec![text("x")]), text("\"\""));
    assert_eq!(repr(&vec![num(4.0)]), text("0"));
    assert_eq!(repr(&vec![Value::Void]), text("void"));
    assert_eq!(repr(&vec![array(0)]), text("[]"));
    assert_eq!(repr(&vec![]), Value::Void);
    assert_eq!(count(&vec![array(0)], &store, &memo), Ok(num(2.0)));
    assert_eq!(count(&vec![text("abc")], &store, &memo), Ok(num(3.0)));
    assert_eq!(count(&vec![num(1.0)], &store, &memo), Ok(Value::Number(ZERO)));
    assert_eq!(count(&vec![], &store, &memo), Ok(Value::Void));
    assert_eq!(get(&vec![array(0), num(1.0)], &store, &memo), Ok(num(8.0)));
    assert_eq!(get(&vec![array(0), num(9.0)], &store, &memo), Ok(Value::Void));
    assert_eq!(get(&vec![array(0), num(-1.0)], &store, &memo), Ok(Value::Void));
    assert_eq!(get(&vec![array(0)], &store, &memo), Ok(Value::Void));
    assert_eq!(get(&vec![num(0.0), num(1.0)], &store, &memo), Ok(Value::Void));
    assert_eq!(
        get(&vec![array(0), num(2.0)], &store, &memo),
        Err(Query::ToInteger(2.0f64.to_bits()))
    );
}

#[test]
fn rendering() {
    let store = vec![vec![num(1.0), text("a b"), Value::Void, array(1)], vec![]];
    let memo = memo_with(vec![(Query::Format(1.0f64.to_bits()), Answer::Text("1".to_string()))]);
    assert_eq!(render(&Value::Void, &store, &memo), Ok("<void>".to_string()));
    assert_eq!(render(&text("a b"), &store, &memo), Ok("a b".to_string()));
    assert_eq!(render(&num(1.0), &store, &memo), Ok("1".to_string()));
    assert_eq!(render(&array(0), &store, &memo), Ok("[1, 'a b', void, []]".to_string()));
    assert_eq!(visualize(&text("a b"), &store, &memo, 3), Ok("'a b'".to_string()));
    assert_eq!(visualize(&Value::Void, &store, &memo, 3), Ok("void".to_string()));
    assert_eq!(visualize(&array(0), &store, &memo, 0), Ok("[...]".to_string()));
    assert_eq!(visualize(&array(1), &store, &memo, 0), Ok("[]".to_string()));
    assert_eq!(visualize(&array(0), &store, &memo, 1), Ok("[1, 'a b', void, []]".to_string()));
    assert_eq!(
        render(&num(2.0), &store, &memo),
        Err(Query::Format(2.0f64.to_bits()))
    );
}

#[test]
fn array_store_access() {
    let store = vec![vec![num(1.0)]];
    assert_eq!(array_len(&store, 0), 1);
    assert_eq!(array_len(&store, 5), 0);
    assert_eq!(array_items(&store, 0), Some(&vec![num(1.0)]));
    assert_eq!(array_items(&store, 1), None);
}

#[test]
fn an_array_that_holds_itself_is_followed_as_deep_as_the_store_has_arrays() {
    let store = vec![vec![array(0)], vec![array(1)], vec![num(1.0)]];
    let memo = Memo::new();
    assert_eq!(render(&array(0), &store, &memo), Ok("[[[[...]]]]".to_string()));
    assert_eq!(eq(&vec![array(0), array(1)], &store, &memo), Ok(Value::Number(ZERO)));
}

#[test]
fn nested_arrays_compare_and_render_in_full() {
    let store = vec![
        vec![array(1)],
        vec![array(2)],
        vec![text("x")],
        vec![array(4)],
        vec![array(5)],
        vec![text("x")],
    ];
    let memo = Memo::new();
    assert_eq!(eq(&vec![array(0), array(3)], &store, &memo), Ok(Value::Number(ONE)));
    assert_eq!(render(&array(0), &store, &memo), Ok("[[[x]]]".to_string()));
}
