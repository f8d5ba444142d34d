//! The nodes of a parsed program.
//!
//! A program is a flat list of statements.  Conditionals own their branch
//! bodies; function bodies lie in the surrounding list, behind a jump that
//! skips them.

use crate::lex::Token;
use vstd::prelude::*;

verus! {

/// The statement that does nothing; it also holds the place of a function
/// header until the body's end is known.
#[derive(Debug, PartialEq)]
pub struct VoidExpr {}

/// A numeric literal, as the bit pattern of its binary64 value.
#[derive(Debug, PartialEq)]
pub struct NumberExpr {
    pub value: u64,
}

/// A string literal, escapes resolved.
#[derive(Debug, PartialEq)]
pub struct StringExpr {
    pub value: String,
}

/// A variable reference; the name includes its `$`.
#[derive(Debug, PartialEq)]
pub struct VariableExpr {
    pub name: String,
}

/// Writes the value of `value` to the variable.
#[derive(Debug, PartialEq)]
pub struct AssignExpr {
    pub variable: String,
    pub value: Box<Expression>,
}

/// Calls a built-in or user function with the values of `args`.
#[derive(Debug, PartialEq)]
pub struct CallExpr {
    pub function: String,
    pub args: Vec<Expression>,
}

/// Prints the value of `value`, with a line end if `newline`.
#[derive(Debug, PartialEq)]
pub struct EchoExpr {
    pub value: Box<Expression>,
    pub newline: bool,
}

/// A binary operation; `operator` is one of the four operator tokens.
#[derive(Debug, PartialEq)]
pub struct MathExpr {
    pub lhs: Box<Expression>,
    pub operator: Token,
    pub rhs: Box<Expression>,
}

/// An `if` or a `while` with both of its branch bodies.
#[derive(Debug, PartialEq)]
pub struct ConditionalExpr {
    pub condition: Box<Expression>,
    pub when_true: Vec<Expression>,
    pub when_false: Vec<Expression>,
    pub is_while: bool,
}

/// Moves the driving loop to the statement at `address`.
#[derive(Debug, PartialEq)]
pub struct JumpExpr {
    pub address: usize,
}

/// Marks the array that `value` yields for expansion in an argument list.
#[derive(Debug, PartialEq)]
pub struct SpreadExpr {
    pub value: Box<Expression>,
}

/// A node of a parsed program.
#[derive(Debug, PartialEq)]
pub enum Expression {
    Void(VoidExpr),
    Number(NumberExpr),
    String(StringExpr),
    Variable(VariableExpr),
    Assign(AssignExpr),
    Call(CallExpr),
    Echo(EchoExpr),
    Math(MathExpr),
    Conditional(ConditionalExpr),
    Jump(JumpExpr),
    Spread(SpreadExpr),
}

/// A program node as a mathematical value: text as sequences of
/// characters, statement lists as sequences.
pub enum ExprView {
    Void,
    Number(u64),
    String(Seq<char>),
    Variable(Seq<char>),
    Assign { variable: Seq<char>, value: Box<ExprView> },
    Call { function: Seq<char>, args: Seq<ExprView> },
    Echo { value: Box<ExprView>, newline: bool },
    Math { lhs: Box<ExprView>, operator: Token, rhs: Box<ExprView> },
    Conditional {
        condition: Box<ExprView>,
        when_true: Seq<ExprView>,
        when_false: Seq<ExprView>,
        is_while: bool,
    },
    Jump(usize),
    Spread(Box<ExprView>),
}

/// The views of a list of nodes, in order.
pub open spec fn block_view(list: Seq<Expression>) -> Seq<ExprView>
    decreases list,
{
    Seq::new(
        list.len(),
        |i: int|
            if 0 <= i < list.len() {
                node_view(list[i])
            } else {
                ExprView::Void
            },
    )
}

/// The view of one node.
pub open spec fn node_view(e: Expression) -> ExprView
    decreases e,
{
    match e {
        Expression::Void(_) => ExprView::Void,
        Expression::Number(n) => ExprView::Number(n.value),
        Expression::String(s) => ExprView::String(s.value@),
        Expression::Variable(v) => ExprView::Variable(v.name@),
        Expression::Assign(a) => ExprView::Assign {
            variable: a.variable@,
            value: Box::new(node_view(*a.value)),
        },
        Expression::Call(c) => ExprView::Call { function: c.function@, args: block_view(c.args@) },
        Expression::Echo(e) => ExprView::Echo {
            value: Box::new(node_view(*e.value)),
            newline: e.newline,
        },
        Expression::Math(m) => ExprView::Math {
            lhs: Box::new(node_view(*m.lhs)),
            operator: m.operator,
            rhs: Box::new(node_view(*m.rhs)),
        },
        Expression::Conditional(c) => ExprView::Conditional {
            condition: Box::new(node_view(*c.condition)),
            when_true: block_view(c.when_true@),
            when_false: block_view(c.when_false@),
            is_while: c.is_while,
        },
        Expression::Jump(j) => ExprView::Jump(j.address),
        Expression::Spread(s) => ExprView::Spread(Box::new(node_view(*s.value))),
    }
}

impl View for Expression {
    type V = ExprView;

    open spec fn view(&self) -> ExprView {
        node_view(*self)
    }
}

/// `block_view` goes node by node.
pub broadcast proof fn lemma_block_view(list: Seq<Expression>)
    ensures
        #![trigger block_view(list)]
        block_view(list).len() == list.len(),
        forall|i: int| 0 <= i < list.len() ==> (#[trigger] block_view(list)[i]) == list[i]@,
{
    reveal_with_fuel(block_view, 2);
}

/// Appending a node appends its view.
pub proof fn lemma_block_view_push(list: Seq<Expression>, e: Expression)
    ensures
        block_view(list.push(e)) == block_view(list).push(e@),
{
    lemma_block_view(list);
    lemma_block_view(list.push(e));
    assert(block_view(list.push(e)) =~= block_view(list).push(e@));
}

impl VoidExpr {
    pub fn new() -> (e: Expression)
        ensures
            e == Expression::Void(VoidExpr {  }),
            e@ == ExprView::Void,
    {
        Expression::Void(VoidExpr {  })
    }
}

impl NumberExpr {
    /// A literal for the number with the bit pattern `value`.
    pub fn new(value: u64) -> (e: Expression)
        ensures
            e == Expression::Number(NumberExpr { value }),
            e@ == ExprView::Number(value),
    {
        Expression::Number(NumberExpr { value })
    }
}

impl StringExpr {
    pub fn new(contents: String) -> (e: Expression)
        ensures
            e == Expression::String(StringExpr { value: contents }),
            e@ == ExprView::String(contents@),
    {
        Expression::String(StringExpr { value: contents })
    }
}

impl VariableExpr {
    pub fn new(name: String) -> (e: Expression)
        ensures
            e == Expression::Variable(VariableExpr { name }),
            e@ == ExprView::Variable(name@),
    {
        Expression::Variable(VariableExpr { name })
    }
}

impl AssignExpr {
    pub fn new(variable: String, value: Expression) -> (e: Expression)
        ensures
            e == Expression::Assign(AssignExpr { variable, value: Box::new(value) }),
            e@ == (ExprView::Assign { variable: variable@, value: Box::new(value@) }),
    {
        Expression::Assign(AssignExpr { variable, value: Box::new(value) })
    }
}

impl CallExpr {
    pub fn new(function: String, args: Vec<Expression>) -> (e: Expression)
        ensures
            e == Expression::Call(CallExpr { function, args }),
            e@ == (ExprView::Call { function: function@, args: block_view(args@) }),
    {
        Expression::Call(CallExpr { function, args })
    }
}

impl EchoExpr {
    pub fn new(value: Expression, newline: bool) -> (e: Expression)
        ensures
            e == Expression::Echo(EchoExpr { value: Box::new(value), newline }),
            e@ == (ExprView::Echo { value: Box::new(value@), newline }),
    {
        Expression::Echo(EchoExpr { value: Box::new(value), newline })
    }
}

impl MathExpr {
    pub fn new(lhs: Expression, operator: &Token, rhs: Expression) -> (e: Expression)
        ensures
            e == Expression::Math(
                MathExpr { lhs: Box::new(lhs), operator: *operator, rhs: Box::new(rhs) },
            ),
            e@ == (ExprView::Math {
                lhs: Box::new(lhs@),
                operator: *operator,
                rhs: Box::new(rhs@),
            }),
    {
        Expression::Math(MathExpr { lhs: Box::new(lhs), operator: *operator, rhs: Box::new(rhs) })
    }
}

impl ConditionalExpr {
    pub fn new(
        condition: Expression,
        when_true: Vec<Expression>,
        when_false: Vec<Expression>,
        is_while: bool,
    ) -> (e: Expression)
        ensures
            e == Expression::Conditional(
                ConditionalExpr { condition: Box::new(condition), when_true, when_false, is_while },
            ),
            e@ == (ExprView::Conditional {
                condition: Box::new(condition@),
                when_true: block_view(when_true@),
                when_false: block_view(when_false@),
                is_while,
            }),
    {
        Expression::Conditional(
            ConditionalExpr { condition: Box::new(condition), when_true, when_false, is_while },
        )
    }
}

impl JumpExpr {
    pub fn new(address: usize) -> (e: Expression)
        ensures
            e == Expression::Jump(JumpExpr { address }),
            e@ == ExprView::Jump(address),
    {
        Expression::Jump(JumpExpr { address })
    }
}

impl SpreadExpr {
    pub fn new(value: Expression) -> (e: Expression)
        ensures
            e == Expression::Spread(SpreadExpr { value: Box::new(value) }),
            e@ == ExprView::Spread(Box::new(value@)),
    {
        Expression::Spread(SpreadExpr { value: Box::new(value) })
    }
}

} // verus!
