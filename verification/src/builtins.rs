//! The built-in functions that read their arguments and change nothing:
//! comparison, identity, counting, indexing and rendering.
//!
//! Like the operators these hand back a query where they need the host.

use crate::exprs::{NumberExpr, StringExpr};
use crate::host::{ask_number, ask_text, ExchangeView, Memo, Query, QueryView};
use crate::number::{
    is_nan, number_less, numbers_equal, same_number, smaller_number, ONE, ZERO,
};
use crate::text::{escape, escaped, text_before, text_less};
use crate::value::{
    array_items, array_len, integer_of, items_of, number_of, store_view, text_of, text_outcome,
    truth_outcome, value_outcome, values_view, Value, ValueView,
};
use vstd::prelude::*;
use vstd::string::*;
use vstd::utf8::encode_utf8;

verus! {

/// How many levels of arrays within arrays `eq` and `echo` follow: as many
/// as the store has arrays.  A chain of arrays, each an item of the one
/// before, that is longer than that passes through one array twice, so the
/// limit is met only by an array that holds itself, directly or through
/// others.  Where it is met, two distinct arrays that are not empty count as
/// unequal, and an array that is not empty renders as `[...]`.
pub open spec fn nesting_limit(store: Seq<Seq<ValueView>>) -> nat {
    store.len()
}

/// Whether `a` equals `b`, going by the kind of `a`: a string against the
/// text of `b`, a number against the number of `b`, void against void
/// alone, an array against another array — the same storage, or the same
/// length and equal items, place by place.
pub open spec fn equal_values(
    a: ValueView,
    b: ValueView,
    store: Seq<Seq<ValueView>>,
    memo: Seq<ExchangeView>,
    depth: nat,
) -> Result<bool, QueryView>
    decreases depth, 2nat, 0nat,
{
    match a {
        ValueView::String(text) => match text_of(b, memo) {
            Ok(other) => Ok(text == other),
            Err(q) => Err(q),
        },
        ValueView::Number(bits) => match number_of(b, store, memo) {
            Ok(other) => Ok(same_number(bits, other)),
            Err(q) => Err(q),
        },
        ValueView::Void => Ok(b is Void),
        ValueView::Array(p) => match b {
            ValueView::Array(q) => equal_arrays(p.id, q.id, store, memo, depth),
            _ => Ok(false),
        },
    }
}

/// Whether the arrays with identities `p` and `q` are equal: they are the
/// same array, or they have the same length and equal items place by place.
/// `depth` is the number of levels that are followed; with none left, two
/// distinct arrays that are not empty count as unequal.
pub open spec fn equal_arrays(
    p: usize,
    q: usize,
    store: Seq<Seq<ValueView>>,
    memo: Seq<ExchangeView>,
    depth: nat,
) -> Result<bool, QueryView>
    decreases depth, 1nat, 0nat,
{
    if p == q {
        Ok(true)
    } else if items_of(store, p).len() != items_of(store, q).len() {
        Ok(false)
    } else if items_of(store, p).len() == 0 {
        Ok(true)
    } else if depth == 0 {
        Ok(false)
    } else {
        equal_items(items_of(store, p), items_of(store, q), 0, store, memo, (depth - 1) as nat)
    }
}

/// Whether `xs` and `ys` hold equal items at every place from `from` on.
pub open spec fn equal_items(
    xs: Seq<ValueView>,
    ys: Seq<ValueView>,
    from: nat,
    store: Seq<Seq<ValueView>>,
    memo: Seq<ExchangeView>,
    depth: nat,
) -> Result<bool, QueryView>
    decreases depth, 3nat, xs.len() - from,
{
    if from >= xs.len() {
        Ok(true)
    } else {
        match equal_values(xs[from as int], ys[from as int], store, memo, depth) {
            Ok(true) => equal_items(xs, ys, from + 1, store, memo, depth),
            other => other,
        }
    }
}

/// Whether `a` is less than `b`, going by the kind of `a`: a string by the
/// bytes of its text against the text of `b`; a number, void (as zero) and
/// an array (as its length) by number against the number of `b`.
pub open spec fn less_values(
    a: ValueView,
    b: ValueView,
    store: Seq<Seq<ValueView>>,
    memo: Seq<ExchangeView>,
) -> Result<bool, QueryView> {
    match a {
        ValueView::String(text) => match text_of(b, memo) {
            Ok(other) => Ok(text_before(text, other)),
            Err(q) => Err(q),
        },
        _ => match number_of(a, store, memo) {
            Err(q) => Err(q),
            Ok(bits) => match number_of(b, store, memo) {
                Ok(other) => Ok(smaller_number(bits, other)),
                Err(q) => Err(q),
            },
        },
    }
}

/// The identity of an array value's storage.
pub open spec fn identity(v: ValueView) -> Option<usize> {
    match v {
        ValueView::Array(handle) => Some(handle.id),
        _ => None,
    }
}

/// Whether both values are arrays with the same storage.
pub open spec fn same_array(a: ValueView, b: ValueView) -> bool {
    identity(a) is Some && identity(a) == identity(b)
}

/// Whether every value from `from` on equals its successor, with arrays
/// followed `depth` levels down.
pub open spec fn equal_chain(
    args: Seq<ValueView>,
    from: nat,
    store: Seq<Seq<ValueView>>,
    memo: Seq<ExchangeView>,
    depth: nat,
) -> Result<bool, QueryView>
    decreases args.len() - from,
{
    if from + 1 >= args.len() {
        Ok(true)
    } else {
        match equal_values(args[from as int], args[from as int + 1], store, memo, depth) {
            Ok(true) => equal_chain(args, from + 1, store, memo, depth),
            other => other,
        }
    }
}

/// Whether every value from `from` on is less than its successor.
pub open spec fn less_chain(
    args: Seq<ValueView>,
    from: nat,
    store: Seq<Seq<ValueView>>,
    memo: Seq<ExchangeView>,
) -> Result<bool, QueryView>
    decreases args.len() - from,
{
    if from + 1 >= args.len() {
        Ok(true)
    } else {
        match less_values(args[from as int], args[from as int + 1], store, memo) {
            Ok(true) => less_chain(args, from + 1, store, memo),
            other => other,
        }
    }
}

/// Whether every value from `from` on is the same array as its successor.
pub open spec fn alias_chain(args: Seq<ValueView>, from: nat) -> bool
    decreases args.len() - from,
{
    if from + 1 >= args.len() {
        true
    } else {
        same_array(args[from as int], args[from as int + 1]) && alias_chain(args, from + 1)
    }
}

/// A truth value as the language sees it: the number one or the number
/// zero.
pub open spec fn truth_value(r: Result<bool, QueryView>) -> Result<ValueView, QueryView> {
    match r {
        Ok(true) => Ok(ValueView::Number(ONE)),
        Ok(false) => Ok(ValueView::Number(ZERO)),
        Err(q) => Err(q),
    }
}

fn truth(r: Result<bool, Query>) -> (v: Result<Value, Query>)
    ensures
        value_outcome(v) == truth_value(truth_outcome(r)),
{
    match r {
        Ok(true) => Ok(Value::Number(ONE)),
        Ok(false) => Ok(Value::Number(ZERO)),
        Err(q) => Err(q),
    }
}

/// See [`equal_values`].
pub fn eq_impl(a: &Value, b: &Value, store: &Vec<Vec<Value>>, memo: &Memo, depth: usize) -> (r:
    Result<bool, Query>)
    ensures
        truth_outcome(r) == equal_values(a@, b@, store_view(store@), memo@, depth as nat),
    decreases depth, 2nat, 0nat,
{
    match a {
        Value::String(text) => match StringExpr::coerce_to_string(b, memo) {
            Ok(other) => Ok(*text == other),
            Err(q) => Err(q),
        },
        Value::Number(bits) => match NumberExpr::coerce_to_number(b, store, memo) {
            Ok(other) => Ok(numbers_equal(*bits, other)),
            Err(q) => Err(q),
        },
        Value::Void => match b {
            Value::Void => Ok(true),
            _ => Ok(false),
        },
        Value::Array(p) => match b {
            Value::Array(q) => eq_impl_arr(p.id, q.id, store, memo, depth),
            _ => Ok(false),
        },
    }
}

/// See [`equal_arrays`].
pub fn eq_impl_arr(p: usize, q: usize, store: &Vec<Vec<Value>>, memo: &Memo, depth: usize) -> (r:
    Result<bool, Query>)
    ensures
        truth_outcome(r) == equal_arrays(p, q, store_view(store@), memo@, depth as nat),
    decreases depth, 1nat, 0nat,
{
    if p == q {
        return Ok(true);
    }
    let n = array_len(store, p);
    if n != array_len(store, q) {
        return Ok(false);
    }
    if n == 0 {
        return Ok(true);
    }
    if depth == 0 {
        return Ok(false);
    }
    let xs = &store[p];
    let ys = &store[q];
    let ghost xv = items_of(store_view(store@), p);
    let ghost yv = items_of(store_view(store@), q);
    let mut i: usize = 0;
    while i < n
        invariant
            i <= n,
            depth > 0,
            n == xs@.len(),
            n == ys@.len(),
            xv == values_view(xs@),
            yv == values_view(ys@),
            equal_arrays(p, q, store_view(store@), memo@, depth as nat) == equal_items(
                xv,
                yv,
                0,
                store_view(store@),
                memo@,
                (depth - 1) as nat,
            ),
            equal_items(xv, yv, 0, store_view(store@), memo@, (depth - 1) as nat) == equal_items(
                xv,
                yv,
                i as nat,
                store_view(store@),
                memo@,
                (depth - 1) as nat,
            ),
        decreases n - i,
    {
        match eq_impl(&xs[i], &ys[i], store, memo, depth - 1) {
            Ok(true) => {},
            other => {
                return other;
            },
        }
        i += 1;
    }
    Ok(true)
}

/// See [`less_values`].
pub fn lt_impl(a: &Value, b: &Value, store: &Vec<Vec<Value>>, memo: &Memo) -> (r: Result<
    bool,
    Query,
>)
    ensures
        truth_outcome(r) == less_values(a@, b@, store_view(store@), memo@),
{
    match a {
        Value::String(text) => match StringExpr::coerce_to_string(b, memo) {
            Ok(other) => Ok(text_less(text.as_str(), other.as_str())),
            Err(q) => Err(q),
        },
        _ => {
            let bits = match NumberExpr::coerce_to_number(a, store, memo) {
                Ok(bits) => bits,
                Err(q) => return Err(q),
            };
            match NumberExpr::coerce_to_number(b, store, memo) {
                Ok(other) => Ok(number_less(bits, other)),
                Err(q) => Err(q),
            }
        },
    }
}

/// The identity of an array's storage; `None` for any other value.
pub fn uid_of(a: &Value) -> (id: Option<usize>)
    ensures
        id == identity(a@),
{
    match a {
        Value::Array(handle) => Some(handle.uid()),
        _ => None,
    }
}

/// `eq`: one where every argument equals the next, else zero; one for
/// fewer than two arguments.  Arrays within arrays are followed as many
/// levels down as the store has arrays; see [`nesting_limit`].
pub fn eq(args: &Vec<Value>, store: &Vec<Vec<Value>>, memo: &Memo) -> (r: Result<Value, Query>)
    ensures
        value_outcome(r) == truth_value(
            equal_chain(
                values_view(args@),
                0,
                store_view(store@),
                memo@,
                nesting_limit(store_view(store@)),
            ),
        ),
{
    let mut i: usize = 0;
    while i < args.len() && 1 < args.len() - i
        invariant
            i <= args@.len(),
            equal_chain(
                values_view(args@),
                0,
                store_view(store@),
                memo@,
                nesting_limit(store_view(store@)),
            ) == equal_chain(
                values_view(args@),
                i as nat,
                store_view(store@),
                memo@,
                nesting_limit(store_view(store@)),
            ),
        decreases args@.len() - i,
    {
        match eq_impl(&args[i], &args[i + 1], store, memo, store.len()) {
            Ok(true) => {},
            other => {
                return truth(other);
            },
        }
        i += 1;
    }
    truth(Ok(true))
}

/// `lt`: one where every argument is less than the next, else zero; one
/// for fewer than two arguments.
pub fn lt(args: &Vec<Value>, store: &Vec<Vec<Value>>, memo: &Memo) -> (r: Result<Value, Query>)
    ensures
        value_outcome(r) == truth_value(
            less_chain(values_view(args@), 0, store_view(store@), memo@),
        ),
{
    let mut i: usize = 0;
    while i < args.len() && 1 < args.len() - i
        invariant
            i <= args@.len(),
            less_chain(values_view(args@), 0, store_view(store@), memo@) == less_chain(
                values_view(args@),
                i as nat,
                store_view(store@),
                memo@,
            ),
        decreases args@.len() - i,
    {
        match lt_impl(&args[i], &args[i + 1], store, memo) {
            Ok(true) => {},
            other => {
                return truth(other);
            },
        }
        i += 1;
    }
    truth(Ok(true))
}

/// `aka`: one where every argument is the same array as the next, else
/// zero; one for fewer than two arguments.
pub fn aka(args: &Vec<Value>) -> (r: Value)
    ensures
        r@ == ValueView::Number(
            if alias_chain(values_view(args@), 0) {
                ONE
            } else {
                ZERO
            },
        ),
{
    let mut i: usize = 0;
    while i < args.len() && 1 < args.len() - i
        invariant
            i <= args@.len(),
            alias_chain(values_view(args@), 0) == alias_chain(values_view(args@), i as nat),
        decreases args@.len() - i,
    {
        let uid_a = uid_of(&args[i]);
        let uid_b = uid_of(&args[i + 1]);
        match (uid_a, uid_b) {
            (Some(x), Some(y)) => {
                if x != y {
                    return Value::Number(ZERO);
                }
            },
            _ => {
                return Value::Number(ZERO);
            },
        }
        i += 1;
    }
    Value::Number(ONE)
}

/// What `repr` yields: a short tag for the kind of the first argument.
pub open spec fn kind_tag(args: Seq<ValueView>) -> ValueView {
    if args.len() == 0 {
        ValueView::Void
    } else {
        match args[0] {
            ValueView::String(_) => ValueView::String("\"\""@),
            ValueView::Number(_) => ValueView::String("0"@),
            ValueView::Void => ValueView::String("void"@),
            ValueView::Array(_) => ValueView::String("[]"@),
        }
    }
}

/// `repr`; see [`kind_tag`].
pub fn repr(args: &Vec<Value>) -> (r: Value)
    ensures
        r@ == kind_tag(values_view(args@)),
{
    if args.len() == 0 {
        return Value::Void;
    }
    match &args[0] {
        Value::String(_) => Value::String(String::from_str("\"\"")),
        Value::Number(_) => Value::String(String::from_str("0")),
        Value::Void => Value::String(String::from_str("void")),
        Value::Array(_) => Value::String(String::from_str("[]")),
    }
}

/// What `count` yields: the length of an array, the length in bytes of a
/// string, zero for other values; void without arguments.
pub open spec fn counted(
    args: Seq<ValueView>,
    store: Seq<Seq<ValueView>>,
    memo: Seq<ExchangeView>,
) -> Result<ValueView, QueryView> {
    if args.len() == 0 {
        Ok(ValueView::Void)
    } else {
        match args[0] {
            ValueView::Array(handle) => as_number(
                ask_number(memo, QueryView::FromInteger(items_of(store, handle.id).len() as u64)),
            ),
            ValueView::String(text) => as_number(
                ask_number(memo, QueryView::FromInteger(encode_utf8(text).len() as usize as u64)),
            ),
            _ => Ok(ValueView::Number(ZERO)),
        }
    }
}

/// A number, where there is one, as a value.
pub open spec fn as_number(r: Result<u64, QueryView>) -> Result<ValueView, QueryView> {
    match r {
        Ok(bits) => Ok(ValueView::Number(bits)),
        Err(q) => Err(q),
    }
}

/// `count`; see [`counted`].
pub fn count(args: &Vec<Value>, store: &Vec<Vec<Value>>, memo: &Memo) -> (r: Result<Value, Query>)
    ensures
        value_outcome(r) == counted(values_view(args@), store_view(store@), memo@),
{
    if args.len() == 0 {
        return Ok(Value::Void);
    }
    let len = match &args[0] {
        Value::Array(handle) => array_len(store, handle.id),
        Value::String(text) => text.as_str().len(),
        _ => {
            return Ok(Value::Number(ZERO));
        },
    };
    match memo.number(Query::FromInteger(len as u64)) {
        Ok(bits) => Ok(Value::Number(bits)),
        Err(q) => Err(q),
    }
}

/// What `get` yields: the item of the array (first argument) at the place
/// that the integer part of the second argument names, counted from zero;
/// void where the array has no such place (the index is negative, or at or
/// beyond the length), where the first argument is no array, and for any
/// other number of arguments.
pub open spec fn fetched(
    args: Seq<ValueView>,
    store: Seq<Seq<ValueView>>,
    memo: Seq<ExchangeView>,
) -> Result<ValueView, QueryView> {
    if args.len() != 2 {
        Ok(ValueView::Void)
    } else {
        match args[0] {
            ValueView::Array(handle) => match integer_of(args[1], store, memo) {
                Err(q) => Err(q),
                Ok(n) => {
                    let items = items_of(store, handle.id);
                    if 0 <= n < items.len() {
                        Ok(items[n as int])
                    } else {
                        Ok(ValueView::Void)
                    }
                },
            },
            _ => Ok(ValueView::Void),
        }
    }
}

/// `get`; see [`fetched`].
pub fn get(args: &Vec<Value>, store: &Vec<Vec<Value>>, memo: &Memo) -> (r: Result<Value, Query>)
    ensures
        value_outcome(r) == fetched(values_view(args@), store_view(store@), memo@),
{
    if args.len() != 2 {
        return Ok(Value::Void);
    }
    match &args[0] {
        Value::Array(handle) => {
            let n = match NumberExpr::coerce_to_integer(&args[1], store, memo) {
                Ok(n) => n,
                Err(q) => return Err(q),
            };
            if n < 0 {
                return Ok(Value::Void);
            }
            let place: u64 = n as u64;
            match array_items(store, handle.id) {
                Some(items) => {
                    if place < items.len() as u64 {
                        Ok(items[place as usize].clone())
                    } else {
                        Ok(Value::Void)
                    }
                },
                None => Ok(Value::Void),
            }
        },
        _ => Ok(Value::Void),
    }
}

/// How a value looks as an item of a rendered array: `void`, a number's
/// decimal text, a string in its quoted form, an array in brackets.
pub open spec fn visual(
    v: ValueView,
    store: Seq<Seq<ValueView>>,
    memo: Seq<ExchangeView>,
    depth: nat,
) -> Result<Seq<char>, QueryView>
    decreases depth, 1nat, 0nat,
{
    match v {
        ValueView::Void => Ok("void"@),
        ValueView::Number(bits) => ask_text(memo, QueryView::Format(bits)),
        ValueView::String(text) => Ok(escaped(text)),
        ValueView::Array(handle) => bracketed(items_of(store, handle.id), store, memo, depth),
    }
}

/// An array's items between brackets, separated by a comma and a space.
/// `depth` is the number of levels that are followed; with none left, an
/// array that is not empty renders as `[...]`.
pub open spec fn bracketed(
    items: Seq<ValueView>,
    store: Seq<Seq<ValueView>>,
    memo: Seq<ExchangeView>,
    depth: nat,
) -> Result<Seq<char>, QueryView>
    decreases depth, 0nat, 0nat,
{
    if items.len() == 0 {
        Ok("[]"@)
    } else if depth == 0 {
        Ok("[...]"@)
    } else {
        match listed(items, 0, Seq::empty(), store, memo, (depth - 1) as nat) {
            Ok(inner) => Ok("["@ + inner + "]"@),
            Err(q) => Err(q),
        }
    }
}

/// `so_far` followed by the items from `from` on, each behind a separator
/// unless it is the first.
pub open spec fn listed(
    items: Seq<ValueView>,
    from: nat,
    so_far: Seq<char>,
    store: Seq<Seq<ValueView>>,
    memo: Seq<ExchangeView>,
    depth: nat,
) -> Result<Seq<char>, QueryView>
    decreases depth, 2nat, items.len() - from,
{
    if from >= items.len() {
        Ok(so_far)
    } else {
        match visual(items[from as int], store, memo, depth) {
            Err(q) => Err(q),
            Ok(text) => listed(
                items,
                from + 1,
                if from == 0 {
                    text
                } else {
                    so_far + ", "@ + text
                },
                store,
                memo,
                depth,
            ),
        }
    }
}

/// The text that `echo` prints for a value: `<void>`, a number's decimal
/// text, a string's own text, an array in brackets with arrays within it
/// followed `depth` levels down.
pub open spec fn rendered(
    v: ValueView,
    store: Seq<Seq<ValueView>>,
    memo: Seq<ExchangeView>,
    depth: nat,
) -> Result<Seq<char>, QueryView> {
    match v {
        ValueView::Void => Ok("<void>"@),
        ValueView::String(text) => Ok(text),
        _ => visual(v, store, memo, depth),
    }
}

/// See [`visual`].
pub fn visualize(v: &Value, store: &Vec<Vec<Value>>, memo: &Memo, depth: usize) -> (r: Result<
    String,
    Query,
>)
    ensures
        text_outcome(r) == visual(v@, store_view(store@), memo@, depth as nat),
    decreases depth, 1nat, 0nat,
{
    match v {
        Value::Void => Ok(String::from_str("void")),
        Value::Number(bits) => memo.text(Query::Format(*bits)),
        Value::String(text) => Ok(escape(text.as_str())),
        Value::Array(handle) => visualize_array(handle.id, store, memo, depth),
    }
}

/// See [`bracketed`].
pub fn visualize_array(id: usize, store: &Vec<Vec<Value>>, memo: &Memo, depth: usize) -> (r:
    Result<String, Query>)
    ensures
        text_outcome(r) == bracketed(
            items_of(store_view(store@), id),
            store_view(store@),
            memo@,
            depth as nat,
        ),
    decreases depth, 0nat, 0nat,
{
    if array_len(store, id) == 0 {
        return Ok(String::from_str("[]"));
    }
    if depth == 0 {
        return Ok(String::from_str("[...]"));
    }
    let mut inner = String::new();
    match array_items(store, id) {
        None => {},
        Some(items) => {
            let ghost iv = items_of(store_view(store@), id);
            let mut i: usize = 0;
            while i < items.len()
                invariant
                    i <= items@.len(),
                    depth > 0,
                    iv == values_view(items@),
                    iv == items_of(store_view(store@), id),
                    listed(iv, 0, Seq::empty(), store_view(store@), memo@, (depth - 1) as nat)
                        == listed(
                        iv,
                        i as nat,
                        inner@,
                        store_view(store@),
                        memo@,
                        (depth - 1) as nat,
                    ),
                decreases items@.len() - i,
            {
                let text = match visualize(&items[i], store, memo, depth - 1) {
                    Ok(text) => text,
                    Err(q) => return Err(q),
                };
                if i == 0 {
                    inner = text;
                } else {
                    inner.append(", ");
                    inner.append(text.as_str());
                }
                i += 1;
            }
        },
    }
    let mut result = String::from_str("[");
    result.append(inner.as_str());
    result.append("]");
    Ok(result)
}

/// The text that `echo` prints; see [`rendered`].  Arrays within arrays
/// are followed as many levels down as the store has arrays; see
/// [`nesting_limit`].
pub fn render(v: &Value, store: &Vec<Vec<Value>>, memo: &Memo) -> (r: Result<String, Query>)
    ensures
        text_outcome(r) == rendered(
            v@,
            store_view(store@),
            memo@,
            nesting_limit(store_view(store@)),
        ),
{
    match v {
        Value::Void => Ok(String::from_str("<void>")),
        Value::String(text) => Ok(text.clone()),
        _ => visualize(v, store, memo, store.len()),
    }
}

/// Every value equals itself, but for a number that is a NaN: whatever
/// the array store holds and whatever the host has answered.
pub proof fn equal_is_reflexive(
    a: ValueView,
    store: Seq<Seq<ValueView>>,
    memo: Seq<ExchangeView>,
    depth: nat,
)
    requires
        !(a matches ValueView::Number(bits) && is_nan(bits)),
    ensures
        equal_values(a, a, store, memo, depth) == Ok::<bool, QueryView>(true),
{
}

/// Between two strings, two numbers or two voids, equality is symmetric.
pub proof fn equal_is_symmetric_within_a_kind(
    a: ValueView,
    b: ValueView,
    store: Seq<Seq<ValueView>>,
    memo: Seq<ExchangeView>,
    depth: nat,
)
    requires
        (a is String && b is String) || (a is Number && b is Number) || (a is Void && b is Void),
    ensures
        equal_values(a, b, store, memo, depth) == equal_values(b, a, store, memo, depth),
{
}

proof fn lemma_equal_items(
    xs: Seq<ValueView>,
    ys: Seq<ValueView>,
    from: nat,
    store: Seq<Seq<ValueView>>,
    memo: Seq<ExchangeView>,
    depth: nat,
)
    requires
        xs.len() == ys.len(),
    ensures
        equal_items(xs, ys, from, store, memo, depth) == Ok::<bool, QueryView>(true) <==> forall|
            i: int,
        |
            from <= i < xs.len() ==> equal_values(#[trigger] xs[i], ys[i], store, memo, depth)
                == Ok::<bool, QueryView>(true),
    decreases xs.len() - from,
{
    if from < xs.len() {
        lemma_equal_items(xs, ys, from + 1, store, memo, depth);
        let here = equal_values(xs[from as int], ys[from as int], store, memo, depth);
        if here == Ok::<bool, QueryView>(true) {
            if equal_items(xs, ys, from + 1, store, memo, depth) == Ok::<bool, QueryView>(true) {
                assert forall|i: int| from <= i < xs.len() implies equal_values(
                    #[trigger] xs[i],
                    ys[i],
                    store,
                    memo,
                    depth,
                ) == Ok::<bool, QueryView>(true) by {
                    if i > from {
                    }
                }
            }
        }
    }
}

/// Two arrays are equal exactly when they are the same array, or have the
/// same length and equal items place by place, though their storage
/// differs.  With no level left to follow, only the same array and two
/// empty arrays are equal.
pub proof fn arrays_are_equal_by_identity_or_items(
    p: usize,
    q: usize,
    store: Seq<Seq<ValueView>>,
    memo: Seq<ExchangeView>,
    depth: nat,
)
    ensures
        equal_arrays(p, p, store, memo, depth) == Ok::<bool, QueryView>(true),
        depth > 0 ==> (equal_arrays(p, q, store, memo, depth) == Ok::<bool, QueryView>(true) <==> p
            == q || (items_of(store, p).len() == items_of(store, q).len() && forall|i: int|
            0 <= i < items_of(store, p).len() ==> equal_values(
                #[trigger] items_of(store, p)[i],
                items_of(store, q)[i],
                store,
                memo,
                (depth - 1) as nat,
            ) == Ok::<bool, QueryView>(true))),
        depth == 0 ==> (equal_arrays(p, q, store, memo, depth) == Ok::<bool, QueryView>(true) <==> p
            == q || (items_of(store, p).len() == 0 && items_of(store, q).len() == 0)),
{
    if items_of(store, p).len() == items_of(store, q).len() && depth > 0 {
        lemma_equal_items(
            items_of(store, p),
            items_of(store, q),
            0,
            store,
            memo,
            (depth - 1) as nat,
        );
    }
}

} // verus!
