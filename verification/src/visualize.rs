//! Program nodes as text, for listings of a parsed program.
//!
//! A numeric literal shows as the decimal text of its number, which the
//! host gives (see `host`), so showing a node hands back a query like the
//! operators do.

use crate::exprs::{block_view, lemma_block_view, ConditionalExpr, ExprView, Expression};
use crate::host::{ask_text, ExchangeView, Memo, Query, QueryView};
use crate::lex::Token;
use crate::text::{escape, escaped};
use crate::value::text_outcome;
use vstd::prelude::*;
use vstd::string::*;

verus! {

/// The digit `d` as text.
pub open spec fn digit_text(d: nat) -> Seq<char> {
    if d == 0 {
        "0"@
    } else if d == 1 {
        "1"@
    } else if d == 2 {
        "2"@
    } else if d == 3 {
        "3"@
    } else if d == 4 {
        "4"@
    } else if d == 5 {
        "5"@
    } else if d == 6 {
        "6"@
    } else if d == 7 {
        "7"@
    } else if d == 8 {
        "8"@
    } else {
        "9"@
    }
}

/// The decimal digits of `n`.
pub open spec fn decimal(n: nat) -> Seq<char>
    decreases n,
{
    if n < 10 {
        digit_text(n)
    } else {
        decimal(n / 10) + digit_text(n % 10)
    }
}

fn digit(d: usize) -> (text: &'static str)
    requires
        d < 10,
    ensures
        text@ == digit_text(d as nat),
{
    if d == 0 {
        "0"
    } else if d == 1 {
        "1"
    } else if d == 2 {
        "2"
    } else if d == 3 {
        "3"
    } else if d == 4 {
        "4"
    } else if d == 5 {
        "5"
    } else if d == 6 {
        "6"
    } else if d == 7 {
        "7"
    } else if d == 8 {
        "8"
    } else {
        "9"
    }
}

/// See [`decimal`].
pub fn decimal_text(n: usize) -> (text: String)
    ensures
        text@ == decimal(n as nat),
    decreases n,
{
    if n < 10 {
        String::from_str(digit(n))
    } else {
        let mut text = decimal_text(n / 10);
        text.append(digit(n % 10));
        text
    }
}

/// The sign of an operator token; `<?>` for any other token.
pub open spec fn sign(operator: Token) -> Seq<char> {
    match operator {
        Token::Plus => "+"@,
        Token::Minus => "-"@,
        Token::Multiply => "*"@,
        Token::Divide => "/"@,
        _ => "<?>"@,
    }
}

/// A node as text.
pub open spec fn shown(e: ExprView, memo: Seq<ExchangeView>) -> Result<Seq<char>, QueryView>
    decreases e, 0nat,
{
    match e {
        ExprView::Void => Ok("void"@),
        ExprView::Number(bits) => ask_text(memo, QueryView::Format(bits)),
        ExprView::String(text) => Ok(escaped(text)),
        ExprView::Variable(name) => Ok(name),
        ExprView::Assign { variable, value } => match shown(*value, memo) {
            Ok(v) => Ok(variable + " = "@ + v),
            Err(q) => Err(q),
        },
        ExprView::Call { function, args } => match shown_list(args, 0, Seq::empty(), memo) {
            Ok(inner) => Ok(function + "("@ + inner + ")"@),
            Err(q) => Err(q),
        },
        ExprView::Echo { value, newline } => match shown(*value, memo) {
            Ok(v) => Ok(
                if newline {
                    "echo "@ + v
                } else {
                    "echo -n "@ + v
                },
            ),
            Err(q) => Err(q),
        },
        ExprView::Math { lhs, operator, rhs } => match shown(*lhs, memo) {
            Err(q) => Err(q),
            Ok(l) => match shown(*rhs, memo) {
                Err(q) => Err(q),
                Ok(r) => Ok("("@ + l + " "@ + sign(operator) + " "@ + r + ")"@),
            },
        },
        ExprView::Conditional { condition, when_true, when_false, is_while } => match shown(
            *condition,
            memo,
        ) {
            Err(q) => Err(q),
            Ok(c) => match shown_block(when_true, 0, Seq::empty(), memo) {
                Err(q) => Err(q),
                Ok(t) => match shown_block(when_false, 0, Seq::empty(), memo) {
                    Err(q) => Err(q),
                    Ok(f) => Ok(
                        (if is_while {
                            "while"@
                        } else {
                            "if"@
                        }) + " "@ + c + " {\n"@ + t + "} else {\n"@ + f + "}"@,
                    ),
                },
            },
        },
        ExprView::Jump(address) => Ok("JMP "@ + decimal(address as nat)),
        ExprView::Spread(inner) => match shown(*inner, memo) {
            Ok(v) => Ok(".. ("@ + v + ")"@),
            Err(q) => Err(q),
        },
    }
}

/// `so_far` followed by the nodes from `from` on, each behind a comma and a
/// space unless it is the first.
pub open spec fn shown_list(
    list: Seq<ExprView>,
    from: nat,
    so_far: Seq<char>,
    memo: Seq<ExchangeView>,
) -> Result<Seq<char>, QueryView>
    decreases list, list.len() - from,
{
    if from >= list.len() {
        Ok(so_far)
    } else {
        match shown(list[from as int], memo) {
            Err(q) => Err(q),
            Ok(text) => shown_list(
                list,
                from + 1,
                if from == 0 {
                    text
                } else {
                    so_far + ", "@ + text
                },
                memo,
            ),
        }
    }
}

/// `so_far` followed by the nodes from `from` on, each on a line of its
/// own.
pub open spec fn shown_block(
    list: Seq<ExprView>,
    from: nat,
    so_far: Seq<char>,
    memo: Seq<ExchangeView>,
) -> Result<Seq<char>, QueryView>
    decreases list, list.len() - from,
{
    if from >= list.len() {
        Ok(so_far)
    } else {
        match shown(list[from as int], memo) {
            Err(q) => Err(q),
            Ok(text) => shown_block(list, from + 1, so_far + text + "\n"@, memo),
        }
    }
}

fn sign_text(operator: &Token) -> (text: &'static str)
    ensures
        text@ == sign(*operator),
{
    match operator {
        Token::Plus => "+",
        Token::Minus => "-",
        Token::Multiply => "*",
        Token::Divide => "/",
        _ => "<?>",
    }
}

impl Expression {
    /// The node as text; see [`shown`].
    pub fn visualize(&self, memo: &Memo) -> (r: Result<String, Query>)
        ensures
            text_outcome(r) == shown(self@, memo@),
        decreases self, 0nat,
    {
        match self {
            Expression::Void(_) => Ok(String::from_str("void")),
            Expression::Number(n) => memo.text(Query::Format(n.value)),
            Expression::String(s) => Ok(escape(s.value.as_str())),
            Expression::Variable(v) => Ok(v.name.clone()),
            Expression::Assign(a) => match a.value.visualize(memo) {
                Ok(v) => {
                    let mut text = a.variable.clone();
                    text.append(" = ");
                    text.append(v.as_str());
                    Ok(text)
                },
                Err(q) => Err(q),
            },
            Expression::Call(c) => match visualize_list(&c.args, memo) {
                Ok(inner) => {
                    let mut text = c.function.clone();
                    text.append("(");
                    text.append(inner.as_str());
                    text.append(")");
                    Ok(text)
                },
                Err(q) => Err(q),
            },
            Expression::Echo(e) => match e.value.visualize(memo) {
                Ok(v) => {
                    let mut text = if e.newline {
                        String::from_str("echo ")
                    } else {
                        String::from_str("echo -n ")
                    };
                    text.append(v.as_str());
                    Ok(text)
                },
                Err(q) => Err(q),
            },
            Expression::Math(m) => {
                let l = match m.lhs.visualize(memo) {
                    Ok(l) => l,
                    Err(q) => return Err(q),
                };
                let r = match m.rhs.visualize(memo) {
                    Ok(r) => r,
                    Err(q) => return Err(q),
                };
                let mut text = String::from_str("(");
                text.append(l.as_str());
                text.append(" ");
                text.append(sign_text(&m.operator));
                text.append(" ");
                text.append(r.as_str());
                text.append(")");
                Ok(text)
            },
            Expression::Conditional(c) => {
                let condition = match c.condition.visualize(memo) {
                    Ok(t) => t,
                    Err(q) => return Err(q),
                };
                let when_true = match ConditionalExpr::visualize_block(&c.when_true, memo) {
                    Ok(t) => t,
                    Err(q) => return Err(q),
                };
                let when_false = match ConditionalExpr::visualize_block(&c.when_false, memo) {
                    Ok(t) => t,
                    Err(q) => return Err(q),
                };
                let mut text = if c.is_while {
                    String::from_str("while")
                } else {
                    String::from_str("if")
                };
                text.append(" ");
                text.append(condition.as_str());
                text.append(" {\n");
                text.append(when_true.as_str());
                text.append("} else {\n");
                text.append(when_false.as_str());
                text.append("}");
                Ok(text)
            },
            Expression::Jump(j) => {
                let mut text = String::from_str("JMP ");
                text.append(decimal_text(j.address).as_str());
                Ok(text)
            },
            Expression::Spread(s) => match s.value.visualize(memo) {
                Ok(v) => {
                    let mut text = String::from_str(".. (");
                    text.append(v.as_str());
                    text.append(")");
                    Ok(text)
                },
                Err(q) => Err(q),
            },
        }
    }
}

/// The nodes of an argument list as text, separated by a comma and a
/// space.
#[verifier::loop_isolation(false)]
fn visualize_list(list: &Vec<Expression>, memo: &Memo) -> (r: Result<String, Query>)
    ensures
        text_outcome(r) == shown_list(block_view(list@), 0, Seq::empty(), memo@),
    decreases list, 1nat,
{
    proof {
        lemma_block_view(list@);
    }
    let mut text = String::new();
    let mut i: usize = 0;
    while i < list.len()
        invariant
            i <= list@.len(),
            shown_list(block_view(list@), 0, Seq::empty(), memo@) == shown_list(
                block_view(list@),
                i as nat,
                text@,
                memo@,
            ),
        decreases list@.len() - i,
    {
        let one = match list[i].visualize(memo) {
            Ok(one) => one,
            Err(q) => return Err(q),
        };
        if i == 0 {
            text = one;
        } else {
            text.append(", ");
            text.append(one.as_str());
        }
        i += 1;
    }
    Ok(text)
}

impl ConditionalExpr {
    /// The statements of a block as text, each on a line of its own; see
    /// [`shown_block`].
    #[verifier::loop_isolation(false)]
    pub fn visualize_block(block: &Vec<Expression>, memo: &Memo) -> (r: Result<String, Query>)
        ensures
            text_outcome(r) == shown_block(block_view(block@), 0, Seq::empty(), memo@),
        decreases block, 1nat,
    {
        proof {
            lemma_block_view(block@);
        }
        let mut result = String::new();
        let mut i: usize = 0;
        while i < block.len()
            invariant
                i <= block@.len(),
                shown_block(block_view(block@), 0, Seq::empty(), memo@) == shown_block(
                    block_view(block@),
                    i as nat,
                    result@,
                    memo@,
                ),
            decreases block@.len() - i,
        {
            let one = match block[i].visualize(memo) {
                Ok(one) => one,
                Err(q) => return Err(q),
            };
            result.append(one.as_str());
            result.append("\n");
            i += 1;
        }
        Ok(result)
    }
}

} // verus!
