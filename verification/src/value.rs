//! Run-time values and what the operators make of them.
//!
//! A value is void, a number, a string or an array.  Arrays are shared:
//! a value of that kind is a handle into the interpreter's array store, and
//! every copy of the handle names the same storage.
//!
//! An operation that needs the host (see `host`) hands back the query in
//! place of a result and is run again once the memo holds the answer.

use crate::exprs::{NumberExpr, StringExpr};
use crate::host::{
    ask_integer, ask_number, ask_text, ExchangeView, Memo, Operator, Query, QueryView,
};
use crate::number::{number_is_true, truthy_number, ZERO};
use crate::text::{
    clipped, count_matches, drop_last_graphemes, graphemes_reversed, last_graphemes, occurrences,
    repeated, reverse_graphemes, take_last_graphemes, without_last_graphemes,
};
use vstd::prelude::*;
use vstd::string::*;

verus! {

/// A handle to an array in the store.  `spread` marks a handle that the
/// spread operator made: an argument list takes the array's items in its
/// place.
#[derive(Debug, Clone, Copy, PartialEq, Eq, Structural)]
pub struct ArrayExpr {
    pub id: usize,
    pub spread: bool,
}

impl ArrayExpr {
    /// The identity of the array's storage.
    pub fn uid(&self) -> (id: usize)
        ensures
            id == self.id,
    {
        self.id
    }
}

/// A run-time value.
#[derive(Debug, PartialEq)]
pub enum Value {
    Void,
    Number(u64),
    String(String),
    Array(ArrayExpr),
}

/// A value with its text as a sequence of characters.
pub enum ValueView {
    Void,
    Number(u64),
    String(Seq<char>),
    Array(ArrayExpr),
}

impl View for Value {
    type V = ValueView;

    open spec fn view(&self) -> ValueView {
        match self {
            Value::Void => ValueView::Void,
            Value::Number(bits) => ValueView::Number(*bits),
            Value::String(text) => ValueView::String(text@),
            Value::Array(handle) => ValueView::Array(*handle),
        }
    }
}

impl Clone for Value {
    /// A copy of the value; the copy of an array is one more handle to the
    /// same storage.
    fn clone(&self) -> (copy: Value)
        ensures
            copy@ == self@,
    {
        match self {
            Value::Void => Value::Void,
            Value::Number(bits) => Value::Number(*bits),
            Value::String(text) => Value::String(text.clone()),
            Value::Array(handle) => Value::Array(*handle),
        }
    }
}

/// The views of a list of values.
pub open spec fn values_view(values: Seq<Value>) -> Seq<ValueView> {
    Seq::new(values.len(), |i: int| values[i]@)
}

/// The array store as a mathematical value: the items of each array.
pub open spec fn store_view(store: Seq<Vec<Value>>) -> Seq<Seq<ValueView>> {
    Seq::new(store.len(), |i: int| values_view(store[i]@))
}

/// The items of the array with identity `id`; none where the store holds
/// no such array.
pub open spec fn items_of(store: Seq<Seq<ValueView>>, id: usize) -> Seq<ValueView> {
    if id < store.len() {
        store[id as int]
    } else {
        Seq::empty()
    }
}

/// The value without a spread mark.
pub open spec fn unmarked(v: ValueView) -> ValueView {
    match v {
        ValueView::Array(handle) => ValueView::Array(ArrayExpr { id: handle.id, spread: false }),
        _ => v,
    }
}

/// The outcome of an operation with the query, if it is one, as a view;
/// likewise the four functions that follow.
pub open spec fn number_outcome(r: Result<u64, Query>) -> Result<u64, QueryView> {
    match r {
        Ok(bits) => Ok(bits),
        Err(q) => Err(q@),
    }
}

pub open spec fn text_outcome(r: Result<String, Query>) -> Result<Seq<char>, QueryView> {
    match r {
        Ok(text) => Ok(text@),
        Err(q) => Err(q@),
    }
}

pub open spec fn integer_outcome(r: Result<i64, Query>) -> Result<i64, QueryView> {
    match r {
        Ok(n) => Ok(n),
        Err(q) => Err(q@),
    }
}

pub open spec fn truth_outcome(r: Result<bool, Query>) -> Result<bool, QueryView> {
    match r {
        Ok(b) => Ok(b),
        Err(q) => Err(q@),
    }
}

pub open spec fn value_outcome(r: Result<Value, Query>) -> Result<ValueView, QueryView> {
    match r {
        Ok(v) => Ok(v@),
        Err(q) => Err(q@),
    }
}

/// The number that a value stands for: a number itself, the number that a
/// string's text denotes, the length of an array, zero for void.
pub open spec fn number_of(v: ValueView, store: Seq<Seq<ValueView>>, memo: Seq<ExchangeView>) -> Result<
    u64,
    QueryView,
> {
    match v {
        ValueView::Number(bits) => Ok(bits),
        ValueView::String(text) => ask_number(memo, QueryView::Parse(text)),
        ValueView::Array(handle) => ask_number(
            memo,
            QueryView::FromInteger(items_of(store, handle.id).len() as u64),
        ),
        ValueView::Void => Ok(ZERO),
    }
}

/// The text that a value stands for in a string operation: a string's own
/// text, a number's decimal text, nothing for void and arrays.
pub open spec fn text_of(v: ValueView, memo: Seq<ExchangeView>) -> Result<Seq<char>, QueryView> {
    match v {
        ValueView::String(text) => Ok(text),
        ValueView::Number(bits) => ask_text(memo, QueryView::Format(bits)),
        _ => Ok(Seq::empty()),
    }
}

/// Truth of a value: that its number is not zero.
pub open spec fn truth_of(v: ValueView, store: Seq<Seq<ValueView>>, memo: Seq<ExchangeView>) -> Result<
    bool,
    QueryView,
> {
    match number_of(v, store, memo) {
        Ok(bits) => Ok(truthy_number(bits)),
        Err(q) => Err(q),
    }
}

/// The integer part of a value's number.
pub open spec fn integer_of(
    v: ValueView,
    store: Seq<Seq<ValueView>>,
    memo: Seq<ExchangeView>,
) -> Result<i64, QueryView> {
    match number_of(v, store, memo) {
        Ok(bits) => ask_integer(memo, QueryView::ToInteger(bits)),
        Err(q) => Err(q),
    }
}

/// How many repetitions or grapheme clusters a count `n` asks for: its
/// size, kept within the signed range and within `usize`.
pub open spec fn count_of(n: i64) -> usize {
    let size: int = if n == i64::MIN {
        i64::MAX as int
    } else if n < 0 {
        -n
    } else {
        n as int
    };
    if size > usize::MAX {
        usize::MAX
    } else {
        size as usize
    }
}

fn count_from(n: i64) -> (count: usize)
    ensures
        count == count_of(n),
{
    let size: u64 = if n == i64::MIN {
        i64::MAX as u64
    } else if n < 0 {
        (-n) as u64
    } else {
        n as u64
    };
    if size > usize::MAX as u64 {
        usize::MAX
    } else {
        size as usize
    }
}

/// The items of the array with identity `id`, if the store holds it.
pub fn array_items(store: &Vec<Vec<Value>>, id: usize) -> (items: Option<&Vec<Value>>)
    ensures
        items matches Some(list) ==> id < store@.len() && *list == store@[id as int],
        items is None ==> id >= store@.len(),
{
    if id < store.len() {
        Some(&store[id])
    } else {
        None
    }
}

/// The length of the array with identity `id`.
pub fn array_len(store: &Vec<Vec<Value>>, id: usize) -> (len: usize)
    ensures
        len == items_of(store_view(store@), id).len(),
{
    match array_items(store, id) {
        Some(list) => list.len(),
        None => 0,
    }
}

impl NumberExpr {
    /// See [`number_of`].
    pub fn coerce_to_number(other: &Value, store: &Vec<Vec<Value>>, memo: &Memo) -> (r: Result<
        u64,
        Query,
    >)
        ensures
            number_outcome(r) == number_of(other@, store_view(store@), memo@),
    {
        match other {
            Value::Number(bits) => Ok(*bits),
            Value::String(text) => memo.number(Query::Parse(text.clone())),
            Value::Array(handle) => {
                let len = array_len(store, handle.id);
                memo.number(Query::FromInteger(len as u64))
            },
            Value::Void => Ok(ZERO),
        }
    }

    /// See [`truth_of`].
    pub fn is_true(other: &Value, store: &Vec<Vec<Value>>, memo: &Memo) -> (r: Result<bool, Query>)
        ensures
            truth_outcome(r) == truth_of(other@, store_view(store@), memo@),
    {
        match NumberExpr::coerce_to_number(other, store, memo) {
            Ok(bits) => Ok(number_is_true(bits)),
            Err(q) => Err(q),
        }
    }

    /// See [`integer_of`].
    pub fn coerce_to_integer(other: &Value, store: &Vec<Vec<Value>>, memo: &Memo) -> (r: Result<
        i64,
        Query,
    >)
        ensures
            integer_outcome(r) == integer_of(other@, store_view(store@), memo@),
    {
        match NumberExpr::coerce_to_number(other, store, memo) {
            Ok(bits) => memo.integer(Query::ToInteger(bits)),
            Err(q) => Err(q),
        }
    }
}

impl StringExpr {
    /// See [`text_of`].
    pub fn coerce_to_string(other: &Value, memo: &Memo) -> (r: Result<String, Query>)
        ensures
            text_outcome(r) == text_of(other@, memo@),
    {
        match other {
            Value::String(text) => Ok(text.clone()),
            Value::Number(bits) => memo.text(Query::Format(*bits)),
            _ => Ok(String::new()),
        }
    }

    /// `string` written `times` times in a row.
    pub fn multiply_string(string: &str, times: usize) -> (r: String)
        ensures
            r@ == repeated(string@, times as nat),
    {
        let mut result = String::new();
        let mut i: usize = 0;
        while i < times
            invariant
                i <= times,
                result@ == repeated(string@, i as nat),
            decreases times - i,
        {
            result.append(string);
            i += 1;
        }
        result
    }
}

/// What `left op right` yields.
///
/// A number on the left takes the right side as a number.  A string on the
/// left is joined (`+`), shortened by grapheme clusters (`-` with a
/// number), repeated (`*`) or searched (`/` with a string); with a string
/// on the right of `-`, or a number on the right of `/`, both sides are
/// taken as numbers.  Void and arrays yield void.
pub open spec fn applied(
    op: Operator,
    left: ValueView,
    right: ValueView,
    store: Seq<Seq<ValueView>>,
    memo: Seq<ExchangeView>,
) -> Result<ValueView, QueryView> {
    match left {
        ValueView::Number(a) => numeric(op, left, right, store, memo),
        ValueView::String(text) => match op {
            Operator::Plus => match text_of(right, memo) {
                Ok(more) => Ok(ValueView::String(text + more)),
                Err(q) => Err(q),
            },
            Operator::Minus => match right {
                ValueView::String(_) => numeric(op, left, right, store, memo),
                ValueView::Number(_) => match integer_of(right, store, memo) {
                    Ok(n) => Ok(
                        ValueView::String(
                            if n < 0 {
                                last_graphemes(text, count_of(n) as nat)
                            } else {
                                without_last_graphemes(text, count_of(n) as nat)
                            },
                        ),
                    ),
                    Err(q) => Err(q),
                },
                _ => Ok(ValueView::String(Seq::empty())),
            },
            Operator::Multiply => match integer_of(right, store, memo) {
                Ok(n) => Ok(
                    ValueView::String(
                        if n < 0 {
                            repeated(graphemes_reversed(text), count_of(n) as nat)
                        } else {
                            repeated(text, count_of(n) as nat)
                        },
                    ),
                ),
                Err(q) => Err(q),
            },
            Operator::Divide => match right {
                ValueView::String(needle) => match ask_number(
                    memo,
                    QueryView::FromInteger(clipped(occurrences(text, needle)) as u64),
                ) {
                    Ok(bits) => Ok(ValueView::Number(bits)),
                    Err(q) => Err(q),
                },
                ValueView::Number(_) => numeric(op, left, right, store, memo),
                _ => Ok(ValueView::Number(ZERO)),
            },
        },
        _ => Ok(ValueView::Void),
    }
}

/// `left op right` with both sides taken as numbers.
pub open spec fn numeric(
    op: Operator,
    left: ValueView,
    right: ValueView,
    store: Seq<Seq<ValueView>>,
    memo: Seq<ExchangeView>,
) -> Result<ValueView, QueryView> {
    match number_of(left, store, memo) {
        Err(q) => Err(q),
        Ok(a) => match number_of(right, store, memo) {
            Err(q) => Err(q),
            Ok(b) => match ask_number(memo, QueryView::Compute(op, a, b)) {
                Ok(bits) => Ok(ValueView::Number(bits)),
                Err(q) => Err(q),
            },
        },
    }
}

fn compute(op: Operator, left: &Value, right: &Value, store: &Vec<Vec<Value>>, memo: &Memo) -> (r:
    Result<Value, Query>)
    ensures
        value_outcome(r) == numeric(op, left@, right@, store_view(store@), memo@),
{
    let a = match NumberExpr::coerce_to_number(left, store, memo) {
        Ok(a) => a,
        Err(q) => return Err(q),
    };
    let b = match NumberExpr::coerce_to_number(right, store, memo) {
        Ok(b) => b,
        Err(q) => return Err(q),
    };
    match memo.number(Query::Compute(op, a, b)) {
        Ok(bits) => Ok(Value::Number(bits)),
        Err(q) => Err(q),
    }
}

impl Value {
    /// `self + other`; see [`applied`].
    pub fn plus(&self, other: &Value, store: &Vec<Vec<Value>>, memo: &Memo) -> (r: Result<
        Value,
        Query,
    >)
        ensures
            value_outcome(r) == applied(Operator::Plus, self@, other@, store_view(store@), memo@),
    {
        match self {
            Value::Number(_) => compute(Operator::Plus, self, other, store, memo),
            Value::String(text) => match StringExpr::coerce_to_string(other, memo) {
                Ok(more) => {
                    let mut joined = text.clone();
                    joined.append(more.as_str());
                    Ok(Value::String(joined))
                },
                Err(q) => Err(q),
            },
            _ => Ok(Value::Void),
        }
    }

    /// `self - other`; see [`applied`].
    pub fn minus(&self, other: &Value, store: &Vec<Vec<Value>>, memo: &Memo) -> (r: Result<
        Value,
        Query,
    >)
        ensures
            value_outcome(r) == applied(Operator::Minus, self@, other@, store_view(store@), memo@),
    {
        match self {
            Value::Number(_) => compute(Operator::Minus, self, other, store, memo),
            Value::String(text) => match other {
                Value::String(_) => compute(Operator::Minus, self, other, store, memo),
                Value::Number(_) => match NumberExpr::coerce_to_integer(other, store, memo) {
                    Ok(n) => {
                        let count = count_from(n);
                        if n < 0 {
                            Ok(Value::String(take_last_graphemes(text.as_str(), count)))
                        } else {
                            Ok(Value::String(drop_last_graphemes(text.as_str(), count)))
                        }
                    },
                    Err(q) => Err(q),
                },
                _ => Ok(Value::String(String::new())),
            },
            _ => Ok(Value::Void),
        }
    }

    /// `self * other`; see [`applied`].
    pub fn multiply(&self, other: &Value, store: &Vec<Vec<Value>>, memo: &Memo) -> (r: Result<
        Value,
        Query,
    >)
        ensures
            value_outcome(r) == applied(
                Operator::Multiply,
                self@,
                other@,
                store_view(store@),
                memo@,
            ),
    {
        match self {
            Value::Number(_) => compute(Operator::Multiply, self, other, store, memo),
            Value::String(text) => match NumberExpr::coerce_to_integer(other, store, memo) {
                Ok(n) => {
                    let count = count_from(n);
                    if n < 0 {
                        let seed = reverse_graphemes(text.as_str());
                        Ok(Value::String(StringExpr::multiply_string(seed.as_str(), count)))
                    } else {
                        Ok(Value::String(StringExpr::multiply_string(text.as_str(), count)))
                    }
                },
                Err(q) => Err(q),
            },
            _ => Ok(Value::Void),
        }
    }

    /// `self / other`; see [`applied`].
    pub fn divide(&self, other: &Value, store: &Vec<Vec<Value>>, memo: &Memo) -> (r: Result<
        Value,
        Query,
    >)
        ensures
            value_outcome(r) == applied(Operator::Divide, self@, other@, store_view(store@), memo@),
    {
        match self {
            Value::Number(_) => compute(Operator::Divide, self, other, store, memo),
            Value::String(text) => match other {
                Value::String(needle) => {
                    let count = count_matches(text.as_str(), needle.as_str());
                    match memo.number(Query::FromInteger(count as u64)) {
                        Ok(bits) => Ok(Value::Number(bits)),
                        Err(q) => Err(q),
                    }
                },
                Value::Number(_) => compute(Operator::Divide, self, other, store, memo),
                _ => Ok(Value::Number(ZERO)),
            },
            _ => Ok(Value::Void),
        }
    }

    /// `self op other`; see [`applied`].
    pub fn apply(&self, op: Operator, other: &Value, store: &Vec<Vec<Value>>, memo: &Memo) -> (r:
        Result<Value, Query>)
        ensures
            value_outcome(r) == applied(op, self@, other@, store_view(store@), memo@),
    {
        match op {
            Operator::Plus => self.plus(other, store, memo),
            Operator::Minus => self.minus(other, store, memo),
            Operator::Multiply => self.multiply(other, store, memo),
            Operator::Divide => self.divide(other, store, memo),
        }
    }

    /// The value itself; for an array, one more handle to the same storage.
    pub fn evaluate(&self) -> (r: Value)
        ensures
            r@ == self@,
            self@ matches ValueView::Array(handle) ==> r@ matches ValueView::Array(same)
                && same.id == handle.id,
    {
        self.clone()
    }

    /// The value without a spread mark: what is kept where a value is stored.
    pub fn resolved(self) -> (r: Value)
        ensures
            r@ == unmarked(self@),
    {
        match self {
            Value::Array(handle) => Value::Array(ArrayExpr { id: handle.id, spread: false }),
            other => other,
        }
    }
}

} // verus!
