//! What the interpreter asks of its host.
//!
//! The library holds numbers as bit patterns and computes nothing on them
//! but comparisons.  Whenever an operation needs arithmetic, a number's
//! decimal text, the number that a text denotes, or a line of input, it
//! stops and names the [`Query`]; the host answers, the answer is recorded
//! in the [`Memo`], and the operation runs again.

use vstd::prelude::*;

verus! {

/// The four binary operators.
#[derive(Debug, Clone, Copy, PartialEq, Eq, Structural)]
pub enum Operator {
    Plus,
    Minus,
    Multiply,
    Divide,
}

/// A question that only the host can answer.
#[derive(Debug, PartialEq)]
pub enum Query {
    /// The decimal text of the number with these bits.
    Format(u64),
    /// The number that this text denotes, `0.0` where it denotes none.
    Parse(String),
    /// The result of the operator on two numbers, as binary64 arithmetic.
    Compute(Operator, u64, u64),
    /// The number nearest to this integer.
    FromInteger(u64),
    /// The integer part of the number with these bits, kept within the
    /// 64-bit signed range; 0 for a NaN.
    ToInteger(u64),
    /// The next line of standard input, without its line end.
    ReadLine,
}

pub enum QueryView {
    Format(u64),
    Parse(Seq<char>),
    Compute(Operator, u64, u64),
    FromInteger(u64),
    ToInteger(u64),
    ReadLine,
}

impl View for Query {
    type V = QueryView;

    open spec fn view(&self) -> QueryView {
        match self {
            Query::Format(bits) => QueryView::Format(*bits),
            Query::Parse(text) => QueryView::Parse(text@),
            Query::Compute(op, a, b) => QueryView::Compute(*op, *a, *b),
            Query::FromInteger(n) => QueryView::FromInteger(*n),
            Query::ToInteger(bits) => QueryView::ToInteger(*bits),
            Query::ReadLine => QueryView::ReadLine,
        }
    }
}

/// The host's answer to a [`Query`].
#[derive(Debug, PartialEq)]
pub enum Answer {
    Number(u64),
    Text(String),
    Integer(i64),
}

pub enum AnswerView {
    Number(u64),
    Text(Seq<char>),
    Integer(i64),
}

impl View for Answer {
    type V = AnswerView;

    open spec fn view(&self) -> AnswerView {
        match self {
            Answer::Number(bits) => AnswerView::Number(*bits),
            Answer::Text(text) => AnswerView::Text(text@),
            Answer::Integer(n) => AnswerView::Integer(*n),
        }
    }
}

/// Whether `answer` is of the kind that `query` asks for.
pub open spec fn fits(query: QueryView, answer: AnswerView) -> bool {
    match query {
        QueryView::Format(_) | QueryView::ReadLine => answer is Text,
        QueryView::Parse(_) | QueryView::Compute(_, _, _) | QueryView::FromInteger(_) => answer is Number,
        QueryView::ToInteger(_) => answer is Integer,
    }
}

impl Query {
    /// Whether two queries ask the same thing.
    pub fn same(&self, other: &Query) -> (same: bool)
        ensures
            same == (self@ == other@),
    {
        match (self, other) {
            (Query::Format(a), Query::Format(b)) => *a == *b,
            (Query::Parse(a), Query::Parse(b)) => *a == *b,
            (Query::Compute(op, a, b), Query::Compute(op2, a2, b2)) => {
                *op == *op2 && *a == *a2 && *b == *b2
            },
            (Query::FromInteger(a), Query::FromInteger(b)) => *a == *b,
            (Query::ToInteger(a), Query::ToInteger(b)) => *a == *b,
            (Query::ReadLine, Query::ReadLine) => true,
            _ => false,
        }
    }

    /// Whether `answer` is of the kind that the query asks for.
    pub fn accepts(&self, answer: &Answer) -> (ok: bool)
        ensures
            ok == fits(self@, answer@),
    {
        match self {
            Query::Format(_) | Query::ReadLine => match answer {
                Answer::Text(_) => true,
                _ => false,
            },
            Query::Parse(_) | Query::Compute(_, _, _) | Query::FromInteger(_) => match answer {
                Answer::Number(_) => true,
                _ => false,
            },
            Query::ToInteger(_) => match answer {
                Answer::Integer(_) => true,
                _ => false,
            },
        }
    }
}

/// One answered query.
#[derive(Debug, PartialEq)]
pub struct Exchange {
    pub query: Query,
    pub answer: Answer,
}

pub struct ExchangeView {
    pub query: QueryView,
    pub answer: AnswerView,
}

impl View for Exchange {
    type V = ExchangeView;

    open spec fn view(&self) -> ExchangeView {
        ExchangeView { query: self.query@, answer: self.answer@ }
    }
}

/// The answers that the host has given to the operation in progress.
#[derive(Debug, PartialEq)]
pub struct Memo {
    pub entries: Vec<Exchange>,
}

impl View for Memo {
    type V = Seq<ExchangeView>;

    open spec fn view(&self) -> Seq<ExchangeView> {
        self.entries@.map_values(|e: Exchange| e@)
    }
}

/// The newest answer to `query` among `memo`.
pub open spec fn answer_to(memo: Seq<ExchangeView>, query: QueryView) -> Option<AnswerView>
    decreases memo.len(),
{
    if memo.len() == 0 {
        None
    } else if memo.last().query == query {
        Some(memo.last().answer)
    } else {
        answer_to(memo.drop_last(), query)
    }
}

/// The number that answers `query`, or the query itself where `memo` holds
/// no such answer.
pub open spec fn ask_number(memo: Seq<ExchangeView>, query: QueryView) -> Result<u64, QueryView> {
    match answer_to(memo, query) {
        Some(AnswerView::Number(bits)) => Ok(bits),
        _ => Err(query),
    }
}

/// The text that answers `query`, or the query itself.
pub open spec fn ask_text(memo: Seq<ExchangeView>, query: QueryView) -> Result<
    Seq<char>,
    QueryView,
> {
    match answer_to(memo, query) {
        Some(AnswerView::Text(text)) => Ok(text),
        _ => Err(query),
    }
}

/// The integer that answers `query`, or the query itself.
pub open spec fn ask_integer(memo: Seq<ExchangeView>, query: QueryView) -> Result<i64, QueryView> {
    match answer_to(memo, query) {
        Some(AnswerView::Integer(n)) => Ok(n),
        _ => Err(query),
    }
}

impl Memo {
    pub fn new() -> (memo: Memo)
        ensures
            memo@ == Seq::<ExchangeView>::empty(),
    {
        let memo = Memo { entries: Vec::new() };
        assert(memo@ =~= Seq::<ExchangeView>::empty());
        memo
    }

    /// Forgets every answer.
    pub fn clear(&mut self)
        ensures
            final(self)@ == Seq::<ExchangeView>::empty(),
    {
        self.entries.clear();
        assert(self@ =~= Seq::<ExchangeView>::empty());
    }

    /// Records `answer` as the answer to `query` if it is of the kind that
    /// the query asks for, and ignores it otherwise.
    pub fn record(&mut self, query: Query, answer: Answer)
        ensures
            fits(query@, answer@) ==> final(self)@ == old(self)@.push(
                ExchangeView { query: query@, answer: answer@ },
            ),
            !fits(query@, answer@) ==> final(self)@ == old(self)@,
    {
        if query.accepts(&answer) {
            self.entries.push(Exchange { query, answer });
            assert(self@ =~= old(self)@.push(ExchangeView { query: query@, answer: answer@ }));
        }
    }

    /// The position of the newest answer to `query`.
    fn find(&self, query: &Query) -> (found: Option<usize>)
        ensures
            match found {
                Some(i) => i < self.entries.len() && self@[i as int].query == query@ && answer_to(
                    self@,
                    query@,
                ) == Some(self@[i as int].answer),
                None => answer_to(self@, query@) is None,
            },
    {
        let mut i: usize = self.entries.len();
        proof {
            assert(self@.take(i as int) =~= self@);
        }
        while i > 0
            invariant
                i <= self.entries.len(),
                answer_to(self@, query@) == answer_to(self@.take(i as int), query@),
            decreases i,
        {
            proof {
                assert(self@.take(i as int).drop_last() =~= self@.take(i - 1));
            }
            i -= 1;
            if self.entries[i].query.same(query) {
                return Some(i);
            }
        }
        proof {
            assert(self@.take(0).len() == 0);
        }
        None
    }

    /// The number that the host gave for `query`; the query comes back
    /// where it is still to be asked.
    pub fn number(&self, query: Query) -> (r: Result<u64, Query>)
        ensures
            match r {
                Ok(bits) => ask_number(self@, query@) == Ok::<u64, QueryView>(bits),
                Err(q) => q == query && ask_number(self@, query@) == Err::<u64, QueryView>(query@),
            },
    {
        match self.find(&query) {
            Some(i) => match &self.entries[i].answer {
                Answer::Number(bits) => Ok(*bits),
                _ => Err(query),
            },
            None => Err(query),
        }
    }

    /// The text that the host gave for `query`.
    pub fn text(&self, query: Query) -> (r: Result<String, Query>)
        ensures
            match r {
                Ok(text) => ask_text(self@, query@) == Ok::<Seq<char>, QueryView>(text@),
                Err(q) => q == query && ask_text(self@, query@) == Err::<Seq<char>, QueryView>(
                    query@,
                ),
            },
    {
        match self.find(&query) {
            Some(i) => match &self.entries[i].answer {
                Answer::Text(text) => Ok(text.clone()),
                _ => Err(query),
            },
            None => Err(query),
        }
    }

    /// The integer that the host gave for `query`.
    pub fn integer(&self, query: Query) -> (r: Result<i64, Query>)
        ensures
            match r {
                Ok(n) => ask_integer(self@, query@) == Ok::<i64, QueryView>(n),
                Err(q) => q == query && ask_integer(self@, query@) == Err::<i64, QueryView>(
                    query@,
                ),
            },
    {
        match self.find(&query) {
            Some(i) => match &self.entries[i].answer {
                Answer::Integer(n) => Ok(*n),
                _ => Err(query),
            },
            None => Err(query),
        }
    }
}

impl Clone for Query {
    fn clone(&self) -> (copy: Query)
        ensures
            copy@ == self@,
    {
        match self {
            Query::Format(bits) => Query::Format(*bits),
            Query::Parse(text) => Query::Parse(text.clone()),
            Query::Compute(op, a, b) => Query::Compute(*op, *a, *b),
            Query::FromInteger(n) => Query::FromInteger(*n),
            Query::ToInteger(bits) => Query::ToInteger(*bits),
            Query::ReadLine => Query::ReadLine,
        }
    }
}

/// What the interpreter wants of its host after a step.
#[derive(Debug, PartialEq)]
pub enum Action {
    /// Nothing: take the next step.
    Continue,
    /// An answer to this query, handed in with the next step.
    Ask(Query),
    /// This text on standard output, with a line end if `newline`; without
    /// one the output is flushed at once.
    Echo { text: String, newline: bool },
    /// Nothing more: the run is over.
    Finished,
}

pub enum ActionView {
    Continue,
    Ask(QueryView),
    Echo { text: Seq<char>, newline: bool },
    Finished,
}

impl View for Action {
    type V = ActionView;

    open spec fn view(&self) -> ActionView {
        match self {
            Action::Continue => ActionView::Continue,
            Action::Ask(query) => ActionView::Ask(query@),
            Action::Echo { text, newline } => ActionView::Echo { text: text@, newline: *newline },
            Action::Finished => ActionView::Finished,
        }
    }
}

/// What the host hands to a step.
#[derive(Debug, PartialEq)]
pub enum Event {
    /// Nothing.
    Resume,
    /// The answer to the query of the step before.
    Answer(Answer),
}

pub enum EventView {
    Resume,
    Answer(AnswerView),
}

impl View for Event {
    type V = EventView;

    open spec fn view(&self) -> EventView {
        match self {
            Event::Resume => EventView::Resume,
            Event::Answer(answer) => EventView::Answer(answer@),
        }
    }
}

} // verus!
