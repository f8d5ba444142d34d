//! What the parser yields, stated on sequences of tokens.
//!
//! Every function here takes the lexed program and a position in it and
//! says which node, or which error, the parser produces from there and
//! where it stops.  Expressions need nothing else; statements also read and
//! change the function table and the mark of the open function header.

use crate::ctx::FunctionView;
use crate::error::{ErrorView, Span};
use crate::exprs::ExprView;
use crate::lex::Token;
use crate::text::{span_text, span_valid, unescaped};
use vstd::prelude::*;

verus! {

/// A lexed program.
pub struct Source {
    pub items: Seq<Token>,
    pub spans: Seq<Span>,
    pub numbers: Seq<Option<u64>>,
    pub contents: Seq<char>,
}

/// The outcome of parsing an expression: where the parser stopped and what
/// it made.
pub struct Parsed<T> {
    pub position: nat,
    pub result: Result<T, ErrorView>,
}

/// What parsing statements reads and changes besides the position.
pub struct Cursor {
    pub position: nat,
    pub functions: Map<Seq<char>, FunctionView>,
    pub parsing_function: Option<usize>,
}

/// The outcome of parsing a construct that may declare a function: the
/// state reached and what was made.
pub struct Outcome<T> {
    pub cursor: Cursor,
    pub result: Result<T, ErrorView>,
}

/// The outcome of parsing a statement: the state reached, the statement
/// list (a closing brace rewrites one of its entries) and what was made.
pub struct Step {
    pub cursor: Cursor,
    pub statements: Seq<ExprView>,
    pub result: Result<ExprView, ErrorView>,
}

/// Every span cuts a well-formed piece out of the source text.
pub open spec fn spans_valid(src: Source) -> bool {
    forall|i: int| 0 <= i < src.spans.len() ==> span_valid(src.contents, #[trigger] src.spans[i])
}

/// How many tokens lie at and behind `position`.
pub open spec fn remaining(src: Source, position: nat) -> nat {
    if position < src.items.len() {
        (src.items.len() - position) as nat
    } else {
        0
    }
}

/// The token at `position`.
pub open spec fn peeked(src: Source, position: nat) -> Option<Token> {
    if position < src.items.len() {
        Some(src.items[position as int])
    } else {
        None
    }
}

/// The position behind the token at `position`; at the end it stays.
pub open spec fn stepped(src: Source, position: nat) -> nat {
    if position < src.items.len() {
        position + 1
    } else {
        position
    }
}

/// The span that an error at `position` reports: that of the token before
/// it.
pub open spec fn here(src: Source, position: nat) -> Span {
    if 1 <= position <= src.spans.len() {
        src.spans[position - 1]
    } else {
        0..0
    }
}

/// The source text of the token before `position`.
pub open spec fn lexeme(src: Source, position: nat) -> Seq<char> {
    span_text(src.contents, here(src, position))
}

/// The numeric value of the token before `position`.
pub open spec fn literal(src: Source, position: nat) -> Option<u64> {
    if 1 <= position <= src.numbers.len() {
        src.numbers[position - 1]
    } else {
        None
    }
}

/// The later of two positions.
pub open spec fn not_before(floor: nat, position: nat) -> nat {
    if position < floor {
        floor
    } else {
        position
    }
}

pub open spec fn failed<T>(src: Source, position: nat, message: Seq<char>) -> Parsed<T> {
    Parsed {
        position,
        result: Err(ErrorView { message, location: Some(here(src, position)) }),
    }
}

pub open spec fn done<T>(position: nat, value: T) -> Parsed<T> {
    Parsed { position, result: Ok(value) }
}

/// How tightly an operator binds: `*` and `/` bind tighter than `+` and
/// `-`.  An operator takes for its right side what follows up to the next
/// operator that binds no tighter, so operators of one level fold to the
/// left.
pub open spec fn precedence(token: Token) -> Option<nat> {
    match token {
        Token::Plus | Token::Minus => Some(5),
        Token::Multiply | Token::Divide => Some(6),
        _ => None,
    }
}

/// A primary: a literal, a variable, a call or a spread primary.
pub open spec fn primary(src: Source, position: nat) -> Parsed<ExprView>
    decreases remaining(src, position), 0nat,
{
    match peeked(src, position) {
        None => failed(src, position, "Failed to parse expression"@),
        Some(token) => {
            let next = stepped(src, position);
            match token {
                Token::String => match unescaped(lexeme(src, next)) {
                    Some(text) => done(next, ExprView::String(text)),
                    None => failed(src, next, "bad string escape"@),
                },
                Token::Number => match literal(src, next) {
                    Some(bits) => done(next, ExprView::Number(bits)),
                    None => failed(src, next, "bad number"@),
                },
                Token::Variable => done(next, ExprView::Variable(lexeme(src, next))),
                Token::Identifier => call(src, next),
                Token::Spread => {
                    let inner = primary(src, next);
                    match inner.result {
                        Ok(value) => done(inner.position, ExprView::Spread(Box::new(value))),
                        Err(e) => Parsed { position: inner.position, result: Err(e) },
                    }
                },
                _ => failed(src, next, "bad expression"@),
            }
        },
    }
}

/// A call, from behind the function's name on.
pub open spec fn call(src: Source, position: nat) -> Parsed<ExprView>
    decreases remaining(src, position), 1nat,
{
    let next = stepped(src, position);
    if peeked(src, position) != Some(Token::Open) {
        failed(src, next, "Expected '(' after identifer"@)
    } else {
        let list = arguments(src, next, Seq::empty());
        match list.result {
            Ok(args) => done(
                list.position,
                ExprView::Call { function: lexeme(src, position), args },
            ),
            Err(e) => Parsed { position: list.position, result: Err(e) },
        }
    }
}

/// The rest of an argument list, behind the arguments `args`.
pub open spec fn arguments(src: Source, position: nat, args: Seq<ExprView>) -> Parsed<
    Seq<ExprView>,
>
    decreases remaining(src, position), 5nat,
{
    match peeked(src, position) {
        Some(Token::Close) => done(stepped(src, position), args),
        None => failed(src, position, "Expected ')' before end of file"@),
        _ => {
            let argument = expression(src, position);
            match argument.result {
                Err(e) => Parsed { position: argument.position, result: Err(e) },
                Ok(value) => {
                    let behind = not_before(position, argument.position);
                    let next = stepped(src, behind);
                    match peeked(src, behind) {
                        Some(Token::Next) => arguments(src, next, args.push(value)),
                        Some(Token::Close) => done(next, args.push(value)),
                        _ => failed(src, next, "Expected ',' or ')' after argument to call"@),
                    }
                },
            }
        },
    }
}

/// An expression: a primary and the operators that follow it.
pub open spec fn expression(src: Source, position: nat) -> Parsed<ExprView>
    decreases remaining(src, position), 4nat,
{
    let first = primary(src, position);
    match first.result {
        Ok(value) => operators(src, not_before(position, first.position), 0, value),
        Err(e) => Parsed { position: first.position, result: Err(e) },
    }
}

/// The operators behind `left` whose precedence is no less than `floor`,
/// folded to the left.
pub open spec fn operators(src: Source, position: nat, floor: nat, left: ExprView) -> Parsed<
    ExprView,
>
    decreases remaining(src, position), 2nat,
{
    match peeked(src, position) {
        None => done(position, left),
        Some(token) => match precedence(token) {
            None => done(position, left),
            Some(level) => if level < floor {
                done(position, left)
            } else {
                let folded = operation(src, position, left, level);
                match folded.result {
                    Ok(value) => operators(
                        src,
                        not_before(stepped(src, position), folded.position),
                        floor,
                        value,
                    ),
                    Err(e) => Parsed { position: folded.position, result: Err(e) },
                }
            },
        },
    }
}

/// One operator and its right side, with `left` as the left side.
pub open spec fn operation(src: Source, position: nat, left: ExprView, level: nat) -> Parsed<
    ExprView,
>
    decreases remaining(src, position), 1nat,
{
    match peeked(src, position) {
        None => done(position, left),
        Some(operator) => {
            let right = right_side(src, stepped(src, position), level);
            match right.result {
                Ok(value) => done(
                    right.position,
                    ExprView::Math { lhs: Box::new(left), operator, rhs: Box::new(value) },
                ),
                Err(e) => Parsed { position: right.position, result: Err(e) },
            }
        },
    }
}

/// The right side of an operator of precedence `level`: a primary, and
/// with it the operators that follow and bind tighter.
pub open spec fn right_side(src: Source, position: nat, level: nat) -> Parsed<ExprView>
    decreases remaining(src, position), 3nat,
{
    let first = primary(src, position);
    match first.result {
        Err(e) => Parsed { position: first.position, result: Err(e) },
        Ok(value) => {
            let behind = not_before(position, first.position);
            match peeked(src, behind) {
                None => done(behind, value),
                Some(token) => match precedence(token) {
                    None => done(behind, value),
                    Some(next_level) => if level < next_level {
                        operators(src, behind, level + 1, value)
                    } else {
                        done(behind, value)
                    },
                },
            }
        },
    }
}

/// An `echo` statement, from behind the keyword on.
pub open spec fn echo(src: Source, position: nat) -> Parsed<ExprView> {
    if peeked(src, position) == Some(Token::Minus) {
        let at_option = stepped(src, position);
        let behind = stepped(src, at_option);
        if peeked(src, at_option) != Some(Token::Identifier) {
            failed(src, behind, "Expected option after '-' after 'echo'"@)
        } else if lexeme(src, behind) == "n"@ {
            echoed(src, behind, false)
        } else {
            failed(
                src,
                behind,
                "Invalid option -"@ + lexeme(src, behind) + " given to 'echo'"@,
            )
        }
    } else {
        echoed(src, position, true)
    }
}

/// The expression of an `echo` statement.
pub open spec fn echoed(src: Source, position: nat, newline: bool) -> Parsed<ExprView> {
    let value = expression(src, position);
    match value.result {
        Ok(e) => done(value.position, ExprView::Echo { value: Box::new(e), newline }),
        Err(e) => Parsed { position: value.position, result: Err(e) },
    }
}

/// An assignment, from behind the variable on.
pub open spec fn assignment(src: Source, position: nat) -> Parsed<ExprView> {
    let next = stepped(src, position);
    if peeked(src, position) != Some(Token::Assign) {
        failed(src, next, "Expected '=' after variable name in statement"@)
    } else {
        let value = expression(src, next);
        match value.result {
            Ok(e) => done(
                value.position,
                ExprView::Assign { variable: lexeme(src, position), value: Box::new(e) },
            ),
            Err(e) => Parsed { position: value.position, result: Err(e) },
        }
    }
}

/// The rest of a list of parameter names, behind the names `names`.
pub open spec fn parameters(src: Source, position: nat, names: Seq<Seq<char>>) -> Parsed<
    Seq<Seq<char>>,
>
    decreases remaining(src, position),
{
    match peeked(src, position) {
        Some(Token::Close) => done(stepped(src, position), names),
        Some(Token::Variable) => {
            let behind = stepped(src, position);
            let more = names.push(lexeme(src, behind));
            match peeked(src, behind) {
                Some(Token::Close) => done(stepped(src, behind), more),
                Some(Token::Next) => parameters(src, stepped(src, behind), more),
                _ => failed(
                    src,
                    stepped(src, stepped(src, behind)),
                    "Expected ')' or ',' after function argument name"@,
                ),
            }
        },
        _ => failed(
            src,
            stepped(src, position),
            "Expected ')' or ',' in list of function arguments"@,
        ),
    }
}

pub open spec fn halted<T>(src: Source, cursor: Cursor, position: nat, message: Seq<char>) -> Outcome<
    T,
> {
    Outcome {
        cursor: Cursor { position, ..cursor },
        result: Err(ErrorView { message, location: Some(here(src, position)) }),
    }
}

/// An expression-level outcome with the state that it leaves as it was.
pub open spec fn lifted<T>(cursor: Cursor, parsed: Parsed<T>) -> Outcome<T> {
    Outcome { cursor: Cursor { position: parsed.position, ..cursor }, result: parsed.result }
}

/// The outcome of a statement that leaves the statement list as it was.
pub open spec fn plain(statements: Seq<ExprView>, outcome: Outcome<ExprView>) -> Step {
    Step { cursor: outcome.cursor, statements, result: outcome.result }
}

/// A function header, from behind the keyword on.  The header becomes a
/// placeholder at `address`; the function is registered with the entry
/// point behind the placeholder.
pub open spec fn function(src: Source, cursor: Cursor, address: usize) -> Outcome<ExprView> {
    let position = cursor.position;
    let at_name = stepped(src, position);
    let at_open = stepped(src, at_name);
    if cursor.parsing_function is Some {
        halted(src, cursor, position, "Already in function"@)
    } else if peeked(src, position) != Some(Token::Identifier) {
        halted(src, cursor, at_name, "Expected name of function"@)
    } else if peeked(src, at_name) != Some(Token::Open) {
        halted(src, cursor, at_open, "Expected '(' after function name"@)
    } else {
        let list = parameters(src, at_open, Seq::empty());
        match list.result {
            Err(e) => lifted(cursor, Parsed { position: list.position, result: Err(e) }),
            Ok(names) => {
                let behind = stepped(src, list.position);
                if peeked(src, list.position) != Some(Token::Begin) {
                    halted(src, cursor, behind, "Expected '{' after function"@)
                } else {
                    Outcome {
                        cursor: Cursor {
                            position: behind,
                            functions: cursor.functions.insert(
                                lexeme(src, at_name),
                                FunctionView { address: (address + 1) as usize, args: names },
                            ),
                            parsing_function: Some(address),
                        },
                        result: Ok(ExprView::Void),
                    }
                }
            },
        }
    }
}

/// A closing brace outside a conditional: the end of the open function's
/// body.  The placeholder of its header becomes a jump behind the body, and
/// the body ends with a `throw` without arguments.  The brace is an error
/// where no header is open or the list has no statement at the header's
/// place.
pub open spec fn end(src: Source, cursor: Cursor, statements: Seq<ExprView>) -> Step {
    match cursor.parsing_function {
        Some(at) if at < statements.len() => Step {
            cursor: Cursor { parsing_function: None, ..cursor },
            statements: statements.update(
                at as int,
                ExprView::Jump((statements.len() + 1) as usize),
            ),
            result: Ok(ExprView::Call { function: "throw"@, args: Seq::empty() }),
        },
        _ => plain(statements, halted(src, cursor, cursor.position, "Unexpected '}'"@)),
    }
}

/// The keyword of a conditional.
pub open spec fn kind_name(is_while: bool) -> Seq<char> {
    if is_while {
        "while"@
    } else {
        "if"@
    }
}

/// An `if` or a `while`, from behind the keyword on.
pub open spec fn conditional(src: Source, cursor: Cursor, is_while: bool) -> Outcome<ExprView>
    decreases remaining(src, cursor.position), 6nat,
{
    let condition = expression(src, cursor.position);
    match condition.result {
        Err(e) => lifted(cursor, condition),
        Ok(test) => {
            let at_begin = not_before(cursor.position, condition.position);
            let inside = stepped(src, at_begin);
            if peeked(src, at_begin) != Some(Token::Begin) {
                halted(
                    src,
                    cursor,
                    inside,
                    "Expected '{' after condition of '"@ + kind_name(is_while) + "' statement"@,
                )
            } else {
                let first = block(
                    src,
                    Cursor { position: inside, ..cursor },
                    kind_name(is_while),
                    Seq::empty(),
                );
                match first.result {
                    Err(e) => Outcome { cursor: first.cursor, result: Err(e) },
                    Ok(when_true) => {
                        let behind = not_before(inside, first.cursor.position);
                        if peeked(src, behind) == Some(Token::Else) {
                            let at_second = stepped(src, behind);
                            let in_second = stepped(src, at_second);
                            if peeked(src, at_second) != Some(Token::Begin) {
                                halted(
                                    src,
                                    first.cursor,
                                    in_second,
                                    "Expected '{' after 'else' keyword of '"@ + kind_name(is_while)
                                        + "' statement"@,
                                )
                            } else {
                                let second = block(
                                    src,
                                    Cursor { position: in_second, ..first.cursor },
                                    kind_name(is_while),
                                    Seq::empty(),
                                );
                                match second.result {
                                    Err(e) => Outcome { cursor: second.cursor, result: Err(e) },
                                    Ok(when_false) => Outcome {
                                        cursor: second.cursor,
                                        result: Ok(
                                            ExprView::Conditional {
                                                condition: Box::new(test),
                                                when_true,
                                                when_false,
                                                is_while,
                                            },
                                        ),
                                    },
                                }
                            }
                        } else {
                            Outcome {
                                cursor: Cursor { position: behind, ..first.cursor },
                                result: Ok(
                                    ExprView::Conditional {
                                        condition: Box::new(test),
                                        when_true,
                                        when_false: Seq::empty(),
                                        is_while,
                                    },
                                ),
                            }
                        }
                    },
                }
            }
        },
    }
}

/// The statements of a branch body up to its closing brace, behind the
/// statements `body`.
pub open spec fn block(src: Source, cursor: Cursor, kind: Seq<char>, body: Seq<ExprView>) -> Outcome<
    Seq<ExprView>,
>
    decreases remaining(src, cursor.position), 8nat,
{
    match peeked(src, cursor.position) {
        None => halted(
            src,
            cursor,
            cursor.position,
            "Expected '}' to close '"@ + kind + "' statement before end of file"@,
        ),
        Some(Token::End) => Outcome {
            cursor: Cursor { position: stepped(src, cursor.position), ..cursor },
            result: Ok(body),
        },
        Some(lead) => {
            let inside = stepped(src, cursor.position);
            let one = statement(src, Cursor { position: inside, ..cursor }, lead, body);
            match one.result {
                Err(e) => Outcome { cursor: one.cursor, result: Err(e) },
                Ok(node) => block(
                    src,
                    Cursor { position: not_before(inside, one.cursor.position), ..one.cursor },
                    kind,
                    one.statements.push(node),
                ),
            }
        },
    }
}

/// One statement, from behind its first token `lead` on.  `statements` are
/// the statements of the list that the new one will join.
pub open spec fn statement(src: Source, cursor: Cursor, lead: Token, statements: Seq<ExprView>) -> Step
    decreases remaining(src, cursor.position), 7nat,
{
    match lead {
        Token::Echo => plain(statements, lifted(cursor, echo(src, cursor.position))),
        Token::Variable => plain(statements, lifted(cursor, assignment(src, cursor.position))),
        Token::Identifier => plain(statements, lifted(cursor, call(src, cursor.position))),
        Token::Function => plain(statements, function(src, cursor, statements.len() as usize)),
        Token::End => end(src, cursor, statements),
        Token::If => plain(statements, conditional(src, cursor, false)),
        Token::While => plain(statements, conditional(src, cursor, true)),
        _ => plain(statements, halted(src, cursor, cursor.position, "Unknown Statement"@)),
    }
}

/// The statements of a program from `cursor` on, behind the statements
/// `statements`.  Where the input ends while a function's body is open,
/// the program is in error.
pub open spec fn program(src: Source, cursor: Cursor, statements: Seq<ExprView>) -> Outcome<
    Seq<ExprView>,
>
    decreases remaining(src, cursor.position), 9nat,
{
    match peeked(src, cursor.position) {
        None => if cursor.parsing_function is Some {
            halted(
                src,
                cursor,
                cursor.position,
                "Expected '}' to close 'function' statement before end of file"@,
            )
        } else {
            Outcome { cursor, result: Ok(statements) }
        },
        Some(lead) => {
            let inside = stepped(src, cursor.position);
            let one = statement(src, Cursor { position: inside, ..cursor }, lead, statements);
            match one.result {
                Err(e) => Outcome { cursor: one.cursor, result: Err(e) },
                Ok(node) => program(
                    src,
                    Cursor { position: not_before(inside, one.cursor.position), ..one.cursor },
                    one.statements.push(node),
                ),
            }
        },
    }
}

/// Parsing an expression never stops before the place where it began:
/// where the functions above go on at "the later of two positions", that
/// is the position at which the part before stopped.
pub proof fn expression_moves_forward(src: Source, position: nat)
    ensures
        primary(src, position).position >= position,
        call(src, position).position >= position,
        expression(src, position).position >= position,
        forall|args: Seq<ExprView>| (#[trigger] arguments(src, position, args)).position >= position,
        forall|floor: nat, left: ExprView|
            (#[trigger] operators(src, position, floor, left)).position >= position,
        forall|left: ExprView, level: nat|
            (#[trigger] operation(src, position, left, level)).position >= position,
        forall|level: nat| (#[trigger] right_side(src, position, level)).position >= position,
    decreases remaining(src, position),
{
    lemma_primary_forward(src, position);
    lemma_call_forward(src, position);
    lemma_expression_forward(src, position);
    assert forall|args: Seq<ExprView>| (#[trigger] arguments(src, position, args)).position
        >= position by {
        lemma_arguments_forward(src, position, args);
    }
    assert forall|floor: nat, left: ExprView|
        (#[trigger] operators(src, position, floor, left)).position >= position by {
        lemma_operators_forward(src, position, floor, left);
    }
    assert forall|left: ExprView, level: nat|
        (#[trigger] operation(src, position, left, level)).position >= position by {
        lemma_operation_forward(src, position, left, level);
    }
    assert forall|level: nat| (#[trigger] right_side(src, position, level)).position
        >= position by {
        lemma_right_side_forward(src, position, level);
    }
}

proof fn lemma_primary_forward(src: Source, position: nat)
    ensures
        primary(src, position).position >= position,
    decreases remaining(src, position), 0nat,
{
    match peeked(src, position) {
        None => {},
        Some(token) => {
            let next = stepped(src, position);
            match token {
                Token::Identifier => lemma_call_forward(src, next),
                Token::Spread => lemma_primary_forward(src, next),
                _ => {},
            }
        },
    }
}

proof fn lemma_call_forward(src: Source, position: nat)
    ensures
        call(src, position).position >= position,
    decreases remaining(src, position), 1nat,
{
    if peeked(src, position) == Some(Token::Open) {
        lemma_arguments_forward(src, stepped(src, position), Seq::empty());
    }
}

proof fn lemma_arguments_forward(src: Source, position: nat, args: Seq<ExprView>)
    ensures
        arguments(src, position, args).position >= position,
    decreases remaining(src, position), 5nat,
{
    match peeked(src, position) {
        Some(Token::Close) => {},
        None => {},
        _ => {
            let argument = expression(src, position);
            lemma_expression_forward(src, position);
            match argument.result {
                Err(e) => {},
                Ok(value) => {
                    let behind = not_before(position, argument.position);
                    let next = stepped(src, behind);
                    match peeked(src, behind) {
                        Some(Token::Next) => lemma_arguments_forward(src, next, args.push(value)),
                        _ => {},
                    }
                },
            }
        },
    }
}

proof fn lemma_expression_forward(src: Source, position: nat)
    ensures
        expression(src, position).position >= position,
    decreases remaining(src, position), 4nat,
{
    let first = primary(src, position);
    lemma_primary_forward(src, position);
    match first.result {
        Ok(value) => lemma_operators_forward(src, not_before(position, first.position), 0, value),
        Err(e) => {},
    }
}

proof fn lemma_operators_forward(src: Source, position: nat, floor: nat, left: ExprView)
    ensures
        operators(src, position, floor, left).position >= position,
    decreases remaining(src, position), 2nat,
{
    match peeked(src, position) {
        None => {},
        Some(token) => match precedence(token) {
            None => {},
            Some(level) => if level < floor {
            } else {
                let folded = operation(src, position, left, level);
                lemma_operation_forward(src, position, left, level);
                match folded.result {
                    Ok(value) => lemma_operators_forward(
                        src,
                        not_before(stepped(src, position), folded.position),
                        floor,
                        value,
                    ),
                    Err(e) => {},
                }
            },
        },
    }
}

proof fn lemma_operation_forward(src: Source, position: nat, left: ExprView, level: nat)
    ensures
        operation(src, position, left, level).position >= position,
        peeked(src, position) is Some ==> operation(src, position, left, level).position >= stepped(
            src,
            position,
        ),
    decreases remaining(src, position), 1nat,
{
    match peeked(src, position) {
        None => {},
        Some(operator) => lemma_right_side_forward(src, stepped(src, position), level),
    }
}

proof fn lemma_right_side_forward(src: Source, position: nat, level: nat)
    ensures
        right_side(src, position, level).position >= position,
    decreases remaining(src, position), 3nat,
{
    let first = primary(src, position);
    lemma_primary_forward(src, position);
    match first.result {
        Err(e) => {},
        Ok(value) => {
            let behind = not_before(position, first.position);
            match peeked(src, behind) {
                None => {},
                Some(token) => match precedence(token) {
                    None => {},
                    Some(next_level) => if level < next_level {
                        lemma_operators_forward(src, behind, level + 1, value);
                    },
                },
            }
        },
    }
}

/// Parsing statements never stops before the place where it began either.
pub proof fn statements_move_forward(src: Source, cursor: Cursor)
    ensures
        forall|is_while: bool|
            (#[trigger] conditional(src, cursor, is_while)).cursor.position >= cursor.position,
        forall|kind: Seq<char>, body: Seq<ExprView>|
            (#[trigger] block(src, cursor, kind, body)).cursor.position >= cursor.position,
        forall|lead: Token, statements: Seq<ExprView>|
            (#[trigger] statement(src, cursor, lead, statements)).cursor.position
                >= cursor.position,
        forall|statements: Seq<ExprView>|
            (#[trigger] program(src, cursor, statements)).cursor.position >= cursor.position,
{
    assert forall|is_while: bool|
        (#[trigger] conditional(src, cursor, is_while)).cursor.position >= cursor.position by {
        lemma_conditional_forward(src, cursor, is_while);
    }
    assert forall|kind: Seq<char>, body: Seq<ExprView>|
        (#[trigger] block(src, cursor, kind, body)).cursor.position >= cursor.position by {
        lemma_block_forward(src, cursor, kind, body);
    }
    assert forall|lead: Token, statements: Seq<ExprView>|
        (#[trigger] statement(src, cursor, lead, statements)).cursor.position
            >= cursor.position by {
        lemma_statement_forward(src, cursor, lead, statements);
    }
    assert forall|statements: Seq<ExprView>|
        (#[trigger] program(src, cursor, statements)).cursor.position >= cursor.position by {
        lemma_program_forward(src, cursor, statements);
    }
}

proof fn lemma_parameters_forward(src: Source, position: nat, names: Seq<Seq<char>>)
    ensures
        parameters(src, position, names).position >= position,
    decreases remaining(src, position),
{
    match peeked(src, position) {
        Some(Token::Variable) => {
            let behind = stepped(src, position);
            match peeked(src, behind) {
                Some(Token::Next) => lemma_parameters_forward(
                    src,
                    stepped(src, behind),
                    names.push(lexeme(src, behind)),
                ),
                _ => {},
            }
        },
        _ => {},
    }
}

proof fn lemma_conditional_forward(src: Source, cursor: Cursor, is_while: bool)
    ensures
        conditional(src, cursor, is_while).cursor.position >= cursor.position,
    decreases remaining(src, cursor.position), 6nat,
{
    let condition = expression(src, cursor.position);
    lemma_expression_forward(src, cursor.position);
    match condition.result {
        Err(e) => {},
        Ok(test) => {
            let at_begin = not_before(cursor.position, condition.position);
            let inside = stepped(src, at_begin);
            if peeked(src, at_begin) == Some(Token::Begin) {
                let start = Cursor { position: inside, ..cursor };
                let first = block(src, start, kind_name(is_while), Seq::empty());
                lemma_block_forward(src, start, kind_name(is_while), Seq::empty());
                match first.result {
                    Err(e) => {},
                    Ok(when_true) => {
                        let behind = not_before(inside, first.cursor.position);
                        if peeked(src, behind) == Some(Token::Else) {
                            let at_second = stepped(src, behind);
                            let in_second = stepped(src, at_second);
                            if peeked(src, at_second) == Some(Token::Begin) {
                                lemma_block_forward(
                                    src,
                                    Cursor { position: in_second, ..first.cursor },
                                    kind_name(is_while),
                                    Seq::empty(),
                                );
                            }
                        }
                    },
                }
            }
        },
    }
}

proof fn lemma_block_forward(src: Source, cursor: Cursor, kind: Seq<char>, body: Seq<ExprView>)
    ensures
        block(src, cursor, kind, body).cursor.position >= cursor.position,
    decreases remaining(src, cursor.position), 8nat,
{
    match peeked(src, cursor.position) {
        None => {},
        Some(Token::End) => {},
        Some(lead) => {
            let inside = stepped(src, cursor.position);
            let start = Cursor { position: inside, ..cursor };
            let one = statement(src, start, lead, body);
            lemma_statement_forward(src, start, lead, body);
            match one.result {
                Err(e) => {},
                Ok(node) => lemma_block_forward(
                    src,
                    Cursor { position: not_before(inside, one.cursor.position), ..one.cursor },
                    kind,
                    one.statements.push(node),
                ),
            }
        },
    }
}

proof fn lemma_statement_forward(
    src: Source,
    cursor: Cursor,
    lead: Token,
    statements: Seq<ExprView>,
)
    ensures
        statement(src, cursor, lead, statements).cursor.position >= cursor.position,
    decreases remaining(src, cursor.position), 7nat,
{
    match lead {
        Token::Echo => {
            let at_option = stepped(src, cursor.position);
            lemma_expression_forward(src, cursor.position);
            lemma_expression_forward(src, stepped(src, at_option));
        },
        Token::Variable => lemma_expression_forward(src, stepped(src, cursor.position)),
        Token::Identifier => lemma_call_forward(src, cursor.position),
        Token::Function => lemma_parameters_forward(
            src,
            stepped(src, stepped(src, cursor.position)),
            Seq::empty(),
        ),
        Token::If => lemma_conditional_forward(src, cursor, false),
        Token::While => lemma_conditional_forward(src, cursor, true),
        _ => {},
    }
}

proof fn lemma_program_forward(src: Source, cursor: Cursor, statements: Seq<ExprView>)
    ensures
        program(src, cursor, statements).cursor.position >= cursor.position,
    decreases remaining(src, cursor.position), 9nat,
{
    match peeked(src, cursor.position) {
        None => {},
        Some(lead) => {
            let inside = stepped(src, cursor.position);
            let start = Cursor { position: inside, ..cursor };
            let one = statement(src, start, lead, statements);
            lemma_statement_forward(src, start, lead, statements);
            match one.result {
                Err(e) => {},
                Ok(node) => lemma_program_forward(
                    src,
                    Cursor { position: not_before(inside, one.cursor.position), ..one.cursor },
                    one.statements.push(node),
                ),
            }
        },
    }
}

} // verus!
