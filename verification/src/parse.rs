//! The parser: from a token stream to one flat list of statements.
//!
//! The bodies of conditionals are parsed into lists of their own.  A
//! function's body stays in the surrounding list: its header leaves a
//! placeholder there, and the closing brace turns the placeholder into a
//! jump behind the body.

use crate::ctx::{names_view, Ctx, CtxView};
use crate::error::{Error, ErrorView};
use crate::exprs::{
    block_view, lemma_block_view, lemma_block_view_push, AssignExpr, CallExpr, ConditionalExpr,
    EchoExpr, ExprView, Expression, JumpExpr, MathExpr, NumberExpr, SpreadExpr, StringExpr,
    VariableExpr, VoidExpr,
};
use crate::grammar::{
    arguments, assignment, block, call, conditional, echo, end, expression, function, kind_name,
    lexeme, operation, operators, parameters, precedence, primary, program, remaining, right_side,
    spans_valid, statement, Cursor, Outcome, Parsed, Source, Step,
};
use crate::lex::{Token, Tokens};
use crate::text::{slice_text, span_valid, unescape};
use vstd::prelude::*;
use vstd::string::*;
use vstd::utf8::*;

verus! {

/// The lexed program that a cursor walks, with its source text.
pub open spec fn source_of(contents: Seq<char>, tokens: &Tokens) -> Source {
    Source {
        items: tokens.items(),
        spans: tokens.spans(),
        numbers: tokens.numbers(),
        contents,
    }
}

/// The cursor `after` walks the stream of `before` and stands no earlier.
pub open spec fn advanced(before: &Tokens, after: &Tokens) -> bool {
    &&& after.items() == before.items()
    &&& after.spans() == before.spans()
    &&& after.numbers() == before.numbers()
    &&& after.position() >= before.position()
}

pub open spec fn node_outcome(r: Result<Expression, Error>) -> Result<ExprView, ErrorView> {
    match r {
        Ok(e) => Ok(e@),
        Err(e) => Err(e@),
    }
}

pub open spec fn list_outcome(r: Result<Vec<Expression>, Error>) -> Result<
    Seq<ExprView>,
    ErrorView,
> {
    match r {
        Ok(list) => Ok(block_view(list@)),
        Err(e) => Err(e@),
    }
}

proof fn lemma_empty_span(contents: Seq<char>)
    ensures
        span_valid(contents, 0..0),
{
    encode_utf8_valid_utf8(contents);
    is_char_boundary_start_end_of_seq(encode_utf8(contents));
}

/// The source text of the token consumed last.
fn lexeme_text(contents: &str, tokens: &Tokens) -> (text: String)
    requires
        spans_valid(source_of(contents@, tokens)),
    ensures
        text@ == lexeme(source_of(contents@, tokens), tokens.position()),
{
    let span = tokens.span();
    proof {
        lemma_empty_span(contents@);
        let src = source_of(contents@, tokens);
        if 1 <= tokens.position() <= src.spans.len() {
            assert(span_valid(src.contents, src.spans[tokens.position() - 1]));
        }
    }
    slice_text(contents, &span)
}

/// An error with this message, at the token consumed last.
fn make_parse_error<T>(message: String, tokens: &Tokens) -> (r: Result<T, Error>)
    ensures
        r matches Err(e) && e@ == (ErrorView {
            message: message@,
            location: Some(tokens.report_span()),
        }),
{
    Err(Error::new(message, Some(tokens.span())))
}

fn make_simple_parse_error<T>(message: &str, tokens: &Tokens) -> (r: Result<T, Error>)
    ensures
        r matches Err(e) && e@ == (ErrorView {
            message: message@,
            location: Some(tokens.report_span()),
        }),
{
    make_parse_error(String::from_str(message), tokens)
}

/// `first`, `middle` and `last` in a row.
fn message_about(first: &str, middle: &str, last: &str) -> (message: String)
    ensures
        message@ == first@ + middle@ + last@,
{
    let mut message = String::from_str(first);
    message.append(middle);
    message.append(last);
    message
}

fn get_op_precedence(token: &Token) -> (level: Option<usize>)
    ensures
        match level {
            Some(n) => precedence(*token) == Some(n as nat) && n <= 6,
            None => precedence(*token) is None,
        },
{
    match token {
        Token::Plus => Some(5),
        Token::Minus => Some(5),
        Token::Multiply => Some(6),
        Token::Divide => Some(6),
        _ => None,
    }
}

fn parse_primary_expr(contents: &str, tokens: &mut Tokens) -> (r: Result<Expression, Error>)
    requires
        spans_valid(source_of(contents@, old(tokens))),
    ensures
        advanced(old(tokens), final(tokens)),
        (Parsed { position: final(tokens).position(), result: node_outcome(r) }) == primary(
            source_of(contents@, old(tokens)),
            old(tokens).position(),
        ),
    decreases remaining(source_of(contents@, old(tokens)), old(tokens).position()), 0nat,
{
    let token = match tokens.next() {
        Some(value) => *value,
        None => return make_simple_parse_error("Failed to parse expression", tokens),
    };
    match token {
        Token::String => {
            let text = lexeme_text(contents, tokens);
            match unescape(text.as_str()) {
                Some(value) => Ok(StringExpr::new(value)),
                None => make_simple_parse_error("bad string escape", tokens),
            }
        },
        Token::Number => match tokens.number() {
            Some(value) => Ok(NumberExpr::new(value)),
            None => make_simple_parse_error("bad number", tokens),
        },
        Token::Variable => Ok(VariableExpr::new(lexeme_text(contents, tokens))),
        Token::Identifier => parse_call_expr(contents, tokens),
        Token::Spread => match parse_primary_expr(contents, tokens) {
            Ok(inner) => Ok(SpreadExpr::new(inner)),
            Err(e) => Err(e),
        },
        _ => make_simple_parse_error("bad expression", tokens),
    }
}

#[verifier::loop_isolation(false)]
fn parse_call_expr(contents: &str, tokens: &mut Tokens) -> (r: Result<Expression, Error>)
    requires
        spans_valid(source_of(contents@, old(tokens))),
    ensures
        advanced(old(tokens), final(tokens)),
        (Parsed { position: final(tokens).position(), result: node_outcome(r) }) == call(
            source_of(contents@, old(tokens)),
            old(tokens).position(),
        ),
    decreases remaining(source_of(contents@, old(tokens)), old(tokens).position()), 1nat,
{
    let ghost src = source_of(contents@, tokens);
    let ghost start = tokens.position();
    let function = lexeme_text(contents, tokens);
    let mut args: Vec<Expression> = Vec::new();
    match tokens.next() {
        Some(Token::Open) => {},
        _ => {
            return make_simple_parse_error("Expected '(' after identifer", tokens);
        },
    }
    let ghost inside = tokens.position();
    proof {
        lemma_block_view(args@);
        assert(block_view(args@) =~= Seq::<ExprView>::empty());
    }
    loop
        invariant
            source_of(contents@, tokens) == src,
            start < src.items.len(),
            tokens.position() > start,
            inside == start + 1,
            arguments(src, inside, Seq::empty()) == arguments(
                src,
                tokens.position(),
                block_view(args@),
            ),
        decreases remaining(src, tokens.position()),
    {
        match tokens.peek() {
            Some(Token::Close) => {
                tokens.next();
                return Ok(CallExpr::new(function, args));
            },
            None => {
                return make_simple_parse_error("Expected ')' before end of file", tokens);
            },
            _ => {},
        }
        let ghost before = tokens.position();
        match parse_expr(contents, tokens) {
            Ok(value) => {
                proof {
                    lemma_block_view_push(args@, value);
                }
                args.push(value);
            },
            Err(e) => {
                return Err(e);
            },
        }
        match tokens.next() {
            Some(Token::Next) => {},
            Some(Token::Close) => {
                return Ok(CallExpr::new(function, args));
            },
            _ => {
                return make_simple_parse_error(
                    "Expected ',' or ')' after argument to call",
                    tokens,
                );
            },
        }
    }
}

fn parse_expr(contents: &str, tokens: &mut Tokens) -> (r: Result<Expression, Error>)
    requires
        spans_valid(source_of(contents@, old(tokens))),
    ensures
        advanced(old(tokens), final(tokens)),
        (Parsed { position: final(tokens).position(), result: node_outcome(r) }) == expression(
            source_of(contents@, old(tokens)),
            old(tokens).position(),
        ),
    decreases remaining(source_of(contents@, old(tokens)), old(tokens).position()), 4nat,
{
    let first = match parse_primary_expr(contents, tokens) {
        Ok(value) => value,
        Err(e) => return Err(e),
    };
    parse_op_expr(contents, tokens, 0, first)
}

#[verifier::loop_isolation(false)]
fn parse_op_expr(contents: &str, tokens: &mut Tokens, precedence: usize, primary: Expression) -> (r:
    Result<Expression, Error>)
    requires
        spans_valid(source_of(contents@, old(tokens))),
    ensures
        advanced(old(tokens), final(tokens)),
        (Parsed { position: final(tokens).position(), result: node_outcome(r) }) == operators(
            source_of(contents@, old(tokens)),
            old(tokens).position(),
            precedence as nat,
            primary@,
        ),
    decreases remaining(source_of(contents@, old(tokens)), old(tokens).position()), 2nat,
{
    let ghost src = source_of(contents@, tokens);
    let ghost start = tokens.position();
    let mut left = primary;
    loop
        invariant
            source_of(contents@, tokens) == src,
            tokens.position() >= start,
            operators(src, start, precedence as nat, primary@) == operators(
                src,
                tokens.position(),
                precedence as nat,
                left@,
            ),
        decreases remaining(src, tokens.position()),
    {
        let operator = match tokens.peek() {
            Some(op) => *op,
            None => return Ok(left),
        };
        let level = match get_op_precedence(&operator) {
            None => return Ok(left),
            Some(level) => level,
        };
        if level < precedence {
            return Ok(left);
        }
        left = match parse_math_expr(contents, tokens, left, level) {
            Ok(value) => value,
            Err(e) => return Err(e),
        };
    }
}

fn parse_math_expr(contents: &str, tokens: &mut Tokens, left: Expression, level: usize) -> (r:
    Result<Expression, Error>)
    requires
        spans_valid(source_of(contents@, old(tokens))),
        old(tokens).position() < old(tokens).items().len(),
        level < usize::MAX,
    ensures
        advanced(old(tokens), final(tokens)),
        final(tokens).position() > old(tokens).position(),
        (Parsed { position: final(tokens).position(), result: node_outcome(r) }) == operation(
            source_of(contents@, old(tokens)),
            old(tokens).position(),
            left@,
            level as nat,
        ),
    decreases remaining(source_of(contents@, old(tokens)), old(tokens).position()), 1nat,
{
    let operator = match tokens.next() {
        Some(op) => *op,
        None => return Ok(left),
    };
    match parse_rhs_expr(contents, tokens, level) {
        Ok(right) => Ok(MathExpr::new(left, &operator, right)),
        Err(e) => Err(e),
    }
}

fn parse_rhs_expr(contents: &str, tokens: &mut Tokens, level: usize) -> (r: Result<
    Expression,
    Error,
>)
    requires
        spans_valid(source_of(contents@, old(tokens))),
        level < usize::MAX,
    ensures
        advanced(old(tokens), final(tokens)),
        (Parsed { position: final(tokens).position(), result: node_outcome(r) }) == right_side(
            source_of(contents@, old(tokens)),
            old(tokens).position(),
            level as nat,
        ),
    decreases remaining(source_of(contents@, old(tokens)), old(tokens).position()), 3nat,
{
    let rhs = match parse_primary_expr(contents, tokens) {
        Ok(value) => value,
        Err(e) => return Err(e),
    };
    let next_token = match tokens.peek() {
        Some(token) => *token,
        None => return Ok(rhs),
    };
    let next_level = match get_op_precedence(&next_token) {
        Some(level) => level,
        None => return Ok(rhs),
    };
    if level < next_level {
        return parse_op_expr(contents, tokens, level + 1, rhs);
    }
    Ok(rhs)
}

fn parse_echo(contents: &str, tokens: &mut Tokens) -> (r: Result<Expression, Error>)
    requires
        spans_valid(source_of(contents@, old(tokens))),
    ensures
        advanced(old(tokens), final(tokens)),
        (Parsed { position: final(tokens).position(), result: node_outcome(r) }) == echo(
            source_of(contents@, old(tokens)),
            old(tokens).position(),
        ),
{
    let mut newline = true;
    let dash = match tokens.peek() {
        Some(Token::Minus) => true,
        _ => false,
    };
    if dash {
        tokens.next();
        match tokens.next() {
            Some(Token::Identifier) => {},
            _ => {
                return make_simple_parse_error("Expected option after '-' after 'echo'", tokens);
            },
        }
        let option = lexeme_text(contents, tokens);
        proof {
            reveal_strlit("n");
        }
        if option.as_str().unicode_len() == 1 && option.as_str().get_char(0) == 'n' {
            assert(option@ =~= "n"@);
            newline = false;
        } else {
            return make_parse_error(
                message_about("Invalid option -", option.as_str(), " given to 'echo'"),
                tokens,
            );
        }
    }
    match parse_expr(contents, tokens) {
        Ok(value) => Ok(EchoExpr::new(value, newline)),
        Err(e) => Err(e),
    }
}

fn parse_assign(contents: &str, tokens: &mut Tokens) -> (r: Result<Expression, Error>)
    requires
        spans_valid(source_of(contents@, old(tokens))),
    ensures
        advanced(old(tokens), final(tokens)),
        (Parsed { position: final(tokens).position(), result: node_outcome(r) }) == assignment(
            source_of(contents@, old(tokens)),
            old(tokens).position(),
        ),
{
    let variable = lexeme_text(contents, tokens);
    match tokens.next() {
        Some(Token::Assign) => {},
        _ => {
            return make_simple_parse_error(
                "Expected '=' after variable name in statement",
                tokens,
            );
        },
    }
    match parse_expr(contents, tokens) {
        Ok(value) => Ok(AssignExpr::new(variable, value)),
        Err(e) => Err(e),
    }
}

/// What parsing statements reads and changes, taken from the interpreter
/// and the token cursor.
pub open spec fn cursor_of(ctx: &Ctx, tokens: &Tokens) -> Cursor {
    Cursor {
        position: tokens.position(),
        functions: ctx@.functions,
        parsing_function: ctx@.parsing_function,
    }
}

/// Parsing leaves the interpreter as it was but for the function table and
/// the mark of the open function header.
pub open spec fn kept(before: CtxView, after: CtxView) -> bool {
    after == (CtxView {
        functions: after.functions,
        parsing_function: after.parsing_function,
        ..before
    })
}

proof fn lemma_names_push(names: Seq<String>, name: String)
    ensures
        names_view(names.push(name)) == names_view(names).push(name@),
{
    assert(names_view(names.push(name)) =~= names_view(names).push(name@));
}

proof fn lemma_block_view_update(list: Seq<Expression>, at: int, e: Expression)
    requires
        0 <= at < list.len(),
    ensures
        block_view(list.update(at, e)) == block_view(list).update(at, e@),
{
    lemma_block_view(list);
    lemma_block_view(list.update(at, e));
    assert(block_view(list.update(at, e)) =~= block_view(list).update(at, e@));
}

#[verifier::loop_isolation(false)]
fn parse_function(ctx: &mut Ctx, tokens: &mut Tokens, address: usize) -> (r: Result<
    Expression,
    Error,
>)
    requires
        spans_valid(source_of(old(ctx)@.contents, old(tokens))),
        address < usize::MAX,
    ensures
        advanced(old(tokens), final(tokens)),
        kept(old(ctx)@, final(ctx)@),
        (Outcome { cursor: cursor_of(final(ctx), final(tokens)), result: node_outcome(r) })
            == function(
            source_of(old(ctx)@.contents, old(tokens)),
            cursor_of(old(ctx), old(tokens)),
            address,
        ),
{
    let ghost src = source_of(ctx@.contents, tokens);
    let contents = ctx.contents;
    if ctx.parsing_function.is_some() {
        return make_simple_parse_error("Already in function", tokens);
    }
    let name = match tokens.next() {
        Some(Token::Identifier) => lexeme_text(contents, tokens),
        _ => {
            return make_simple_parse_error("Expected name of function", tokens);
        },
    };
    let mut args: Vec<String> = Vec::new();
    match tokens.next() {
        Some(Token::Open) => (),
        _ => {
            return make_simple_parse_error("Expected '(' after function name", tokens);
        },
    }
    let ghost at_open = tokens.position();
    proof {
        assert(names_view(args@) =~= Seq::<Seq<char>>::empty());
    }
    loop
        invariant
            source_of(contents@, tokens) == src,
            tokens.position() >= at_open,
            *ctx == *old(ctx),
            parameters(src, at_open, Seq::empty()) == parameters(
                src,
                tokens.position(),
                names_view(args@),
            ),
        decreases remaining(src, tokens.position()),
    {
        let token = tokens.next();
        match token {
            Some(Token::Close) => break ,
            Some(Token::Variable) => (),
            _ => {
                return make_simple_parse_error(
                    "Expected ')' or ',' in list of function arguments",
                    tokens,
                );
            },
        }
        let formal = lexeme_text(contents, tokens);
        proof {
            lemma_names_push(args@, formal);
        }
        args.push(formal);
        match tokens.next() {
            Some(Token::Close) => break ,
            Some(Token::Next) => (),
            _ => {
                tokens.next();
                return make_simple_parse_error(
                    "Expected ')' or ',' after function argument name",
                    tokens,
                );
            },
        }
    }
    match tokens.next() {
        Some(Token::Begin) => (),
        _ => {
            return make_simple_parse_error("Expected '{' after function", tokens);
        },
    }
    ctx.add_function(name, address + 1, args);
    ctx.parsing_function = Some(address);
    // The placeholder: the closing brace of the body turns it into a jump.
    Ok(VoidExpr::new())
}

fn parse_end(ctx: &mut Ctx, tokens: &mut Tokens, statements: &mut Vec<Expression>) -> (r: Result<
    Expression,
    Error,
>)
    requires
        old(statements)@.len() < usize::MAX,
    ensures
        *final(tokens) == *old(tokens),
        kept(old(ctx)@, final(ctx)@),
        final(statements)@.len() == old(statements)@.len(),
        (Step {
            cursor: cursor_of(final(ctx), final(tokens)),
            statements: block_view(final(statements)@),
            result: node_outcome(r),
        }) == end(
            source_of(old(ctx)@.contents, old(tokens)),
            cursor_of(old(ctx), old(tokens)),
            block_view(old(statements)@),
        ),
{
    proof {
        lemma_block_view(statements@);
    }
    match ctx.parsing_function {
        Some(at) => {
            if at < statements.len() {
                let target = JumpExpr::new(statements.len() + 1);
                proof {
                    lemma_block_view_update(statements@, at as int, target);
                }
                statements.set(at, target);
                ctx.parsing_function = None;
                let throw = CallExpr::new(String::from_str("throw"), Vec::new());
                proof {
                    assert(block_view(Seq::<Expression>::empty()) =~= Seq::<ExprView>::empty());
                }
                return Ok(throw);
            }
        },
        None => {},
    }
    make_simple_parse_error("Unexpected '}'", tokens)
}

fn kind_text(is_while: bool) -> (name: &'static str)
    ensures
        name@ == kind_name(is_while),
{
    if is_while {
        "while"
    } else {
        "if"
    }
}

fn parse_conditional(ctx: &mut Ctx, tokens: &mut Tokens, is_while: bool) -> (r: Result<
    Expression,
    Error,
>)
    requires
        spans_valid(source_of(old(ctx)@.contents, old(tokens))),
    ensures
        advanced(old(tokens), final(tokens)),
        kept(old(ctx)@, final(ctx)@),
        (Outcome { cursor: cursor_of(final(ctx), final(tokens)), result: node_outcome(r) })
            == conditional(
            source_of(old(ctx)@.contents, old(tokens)),
            cursor_of(old(ctx), old(tokens)),
            is_while,
        ),
    decreases remaining(source_of(old(ctx)@.contents, old(tokens)), old(tokens).position()), 6nat,
{
    let conditional_kind_name = kind_text(is_while);
    let condition = match parse_expr(ctx.contents, tokens) {
        Ok(value) => value,
        Err(e) => return Err(e),
    };
    match tokens.next() {
        Some(Token::Begin) => (),
        _ => {
            return make_parse_error(
                message_about(
                    "Expected '{' after condition of '",
                    conditional_kind_name,
                    "' statement",
                ),
                tokens,
            );
        },
    }
    let when_true = match parse_block(ctx, tokens, conditional_kind_name) {
        Ok(list) => list,
        Err(e) => return Err(e),
    };
    let has_else = match tokens.peek() {
        Some(Token::Else) => true,
        _ => false,
    };
    let when_false = if has_else {
        tokens.next();
        match tokens.next() {
            Some(Token::Begin) => match parse_block(ctx, tokens, conditional_kind_name) {
                Ok(list) => list,
                Err(e) => return Err(e),
            },
            _ => {
                return make_parse_error(
                    message_about(
                        "Expected '{' after 'else' keyword of '",
                        conditional_kind_name,
                        "' statement",
                    ),
                    tokens,
                );
            },
        }
    } else {
        let none: Vec<Expression> = Vec::new();
        proof {
            lemma_block_view(none@);
            assert(block_view(none@) =~= Seq::<ExprView>::empty());
        }
        none
    };
    Ok(ConditionalExpr::new(condition, when_true, when_false, is_while))
}

#[verifier::loop_isolation(false)]
fn parse_block(ctx: &mut Ctx, tokens: &mut Tokens, statement_kind_name: &str) -> (r: Result<
    Vec<Expression>,
    Error,
>)
    requires
        spans_valid(source_of(old(ctx)@.contents, old(tokens))),
    ensures
        advanced(old(tokens), final(tokens)),
        kept(old(ctx)@, final(ctx)@),
        (Outcome { cursor: cursor_of(final(ctx), final(tokens)), result: list_outcome(r) })
            == block(
            source_of(old(ctx)@.contents, old(tokens)),
            cursor_of(old(ctx), old(tokens)),
            statement_kind_name@,
            Seq::empty(),
        ),
    decreases remaining(source_of(old(ctx)@.contents, old(tokens)), old(tokens).position()), 8nat,
{
    let ghost src = source_of(ctx@.contents, tokens);
    let ghost start = cursor_of(ctx, tokens);
    let mut statements: Vec<Expression> = Vec::new();
    proof {
        lemma_block_view(statements@);
        assert(block_view(statements@) =~= Seq::<ExprView>::empty());
    }
    loop
        invariant
            source_of(ctx@.contents, tokens) == src,
            kept(old(ctx)@, ctx@),
            tokens.position() >= start.position,
            statements@.len() + start.position <= tokens.position(),
            block(src, start, statement_kind_name@, Seq::empty()) == block(
                src,
                cursor_of(ctx, tokens),
                statement_kind_name@,
                block_view(statements@),
            ),
        decreases remaining(src, tokens.position()),
    {
        let lead_token = match tokens.next() {
            None => {
                return make_parse_error(
                    message_about(
                        "Expected '}' to close '",
                        statement_kind_name,
                        "' statement before end of file",
                    ),
                    tokens,
                );
            },
            Some(Token::End) => break ,
            Some(token) => *token,
        };
        let stmt = match parse_statement(ctx, tokens, &lead_token, &mut statements) {
            Ok(value) => value,
            Err(e) => return Err(e),
        };
        proof {
            lemma_block_view_push(statements@, stmt);
        }
        statements.push(stmt);
    }
    Ok(statements)
}

fn parse_statement(
    ctx: &mut Ctx,
    tokens: &mut Tokens,
    lead_token: &Token,
    statements: &mut Vec<Expression>,
) -> (r: Result<Expression, Error>)
    requires
        spans_valid(source_of(old(ctx)@.contents, old(tokens))),
        old(statements)@.len() < usize::MAX,
    ensures
        advanced(old(tokens), final(tokens)),
        kept(old(ctx)@, final(ctx)@),
        final(statements)@.len() == old(statements)@.len(),
        (Step {
            cursor: cursor_of(final(ctx), final(tokens)),
            statements: block_view(final(statements)@),
            result: node_outcome(r),
        }) == statement(
            source_of(old(ctx)@.contents, old(tokens)),
            cursor_of(old(ctx), old(tokens)),
            *lead_token,
            block_view(old(statements)@),
        ),
    decreases remaining(source_of(old(ctx)@.contents, old(tokens)), old(tokens).position()), 7nat,
{
    proof {
        lemma_block_view(statements@);
    }
    match lead_token {
        Token::Echo => parse_echo(ctx.contents, tokens),
        Token::Variable => parse_assign(ctx.contents, tokens),
        Token::Identifier => parse_call_expr(ctx.contents, tokens),
        Token::Function => parse_function(ctx, tokens, statements.len()),
        Token::End => parse_end(ctx, tokens, statements),
        Token::If => parse_conditional(ctx, tokens, false),
        Token::While => parse_conditional(ctx, tokens, true),
        _ => make_simple_parse_error("Unknown Statement", tokens),
    }
}

/// Parses a whole program from the cursor on.
///
/// The statements come back as the grammar's `program` lays them out, and
/// the interpreter's function table holds every function that the program
/// declares; an error comes back exactly where `program` reports one, with
/// its message and the span of the offending token.  A function whose body
/// is still open at the end of the input is such an error.
#[verifier::loop_isolation(false)]
pub fn parse(ctx: &mut Ctx, tokens: &mut Tokens) -> (r: Result<Vec<Expression>, Error>)
    requires
        spans_valid(source_of(old(ctx)@.contents, old(tokens))),
    ensures
        advanced(old(tokens), final(tokens)),
        kept(old(ctx)@, final(ctx)@),
        (Outcome { cursor: cursor_of(final(ctx), final(tokens)), result: list_outcome(r) })
            == program(
            source_of(old(ctx)@.contents, old(tokens)),
            cursor_of(old(ctx), old(tokens)),
            Seq::empty(),
        ),
{
    let ghost src = source_of(ctx@.contents, tokens);
    let ghost start = cursor_of(ctx, tokens);
    let mut statements: Vec<Expression> = Vec::new();
    proof {
        lemma_block_view(statements@);
        assert(block_view(statements@) =~= Seq::<ExprView>::empty());
    }
    loop
        invariant
            source_of(ctx@.contents, tokens) == src,
            kept(old(ctx)@, ctx@),
            tokens.position() >= start.position,
            statements@.len() + start.position <= tokens.position(),
            program(src, start, Seq::empty()) == program(
                src,
                cursor_of(ctx, tokens),
                block_view(statements@),
            ),
        decreases remaining(src, tokens.position()),
    {
        let token = match tokens.next() {
            Some(token) => *token,
            None => break ,
        };
        let statement = match parse_statement(ctx, tokens, &token, &mut statements) {
            Ok(value) => value,
            Err(e) => return Err(e),
        };
        proof {
            lemma_block_view_push(statements@, statement);
        }
        statements.push(statement);
    }
    if ctx.parsing_function.is_some() {
        return make_simple_parse_error(
            "Expected '}' to close 'function' statement before end of file",
            tokens,
        );
    }
    Ok(statements)
}

} // verus!
