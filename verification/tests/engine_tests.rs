use phpxx::ctx::Ctx;
use phpxx::error::Error;
use phpxx::exprs::Expression;
use phpxx::host::{Action, Answer, Event, Operator, Query};
use phpxx::lex::{Token, Tokens};
use phpxx::parse::parse;
use std::ops::Range;

struct Lexed {
    items: Vec<Token>,
    spans: Vec<Range<usize>>,
    numbers: Vec<Option<u64>>,
}

fn is_ident_start(c: u8) -> bool {
    c.is_ascii_alphabetic() || c == b'_'
}

fn is_ident_part(c: u8) -> bool {
    c.is_ascii_alphanumeric() || c == b'_'
}

fn lex(source: &str) -> Lexed {
    let bytes = source.as_bytes();
    let mut out = Lexed { items: vec![], spans: vec![], numbers: vec![] };
    let mut i = 0;
    while i < bytes.len() {
        let c = bytes[i];
        let start = i;
        if c == b' ' || c == b'\t' || c == b'\n' || c == b'\x0c' || c == b';' {
            i += 1;
            continue;
        }
        if c == b'#' || (c == b'/' && i + 1 < bytes.len() && bytes[i + 1] == b'/') {
            while i < bytes.len() && bytes[i] != b'\n' {
                i += 1;
            }
            continue;
        }
        let digit_next = i + 1 < bytes.len() && bytes[i + 1].is_ascii_digit();
        let token = if c.is_ascii_digit() || (c == b'-' && digit_next) {
            i += 1;
            while i < bytes.len() && (bytes[i].is_ascii_digit() || bytes[i] == b'_') {
                i += 1;
            }
            if i + 1 < bytes.len() && bytes[i] == b'.' && bytes[i + 1].is_ascii_digit() {
                i += 1;
                while i < bytes.len() && (bytes[i].is_ascii_digit() || bytes[i] == b'_') {
                    i += 1;
                }
            }
            Token::Number
        } else if c == b'"' {
            i += 1;
            while i < bytes.len() && bytes[i] != b'"' {
                if bytes[i] == b'\\' {
                    i += 1;
                }
                i += 1;
            }
            i += 1;
            Token::String
        } else if c == b'$' {
            i += 1;
            while i < bytes.len() && is_ident_part(bytes[i]) {
                i += 1;
            }
            Token::Variable
        } else if is_ident_start(c) {
            while i < bytes.len() && is_ident_part(bytes[i]) {
                i += 1;
            }
            match &source[start..i] {
                "echo" => Token::Echo,
                "function" => Token::Function,
                "if" => Token::If,
                "else" => Token::Else,
                "while" => Token::While,
                _ => Token::Identifier,
            }
        } else {
            i += 1;
            match c {
                b'+' => Token::Plus,
                b'-' => Token::Minus,
                b'*' => Token::Multiply,
                b'/' => Token::Divide,
                b'(' => Token::Open,
                b')' => Token::Close,
                b'{' => Token::Begin,
                b'}' => Token::End,
                b',' => Token::Next,
                b'=' => Token::Assign,
                b'.' => {
                    if i < bytes.len() && bytes[i] == b'.' {
                        i += 1;
                        Token::Spread
                    } else {
                        Token::Error
                    }
                }
                _ => Token::Error,
            }
        };
        let number = if token == Token::Number {
            source[start..i].parse::<f64>().ok().map(f64::to_bits)
        } else {
            None
        };
        out.items.push(token);
        out.spans.push(start..i);
        out.numbers.push(number);
    }
    out
}

fn answer(query: &Query, input: &mut Vec<String>) -> Answer {
    match query {
        Query::Format(bits) => Answer::Text(f64::from_bits(*bits).to_string()),
        Query::Parse(text) => Answer::Number(text.parse::<f64>().unwrap_or(0.0).to_bits()),
        Query::Compute(op, a, b) => {
            let (a, b) = (f64::from_bits(*a), f64::from_bits(*b));
            let r = match op {
                Operator::Plus => a + b,
                Operator::Minus => a - b,
                Operator::Multiply => a * b,
                Operator::Divide => a / b,
            };
            Answer::Number(r.to_bits())
        }
        Query::FromInteger(n) => Answer::Number((*n as f64).to_bits()),
        Query::ToInteger(bits) => Answer::Integer(f64::from_bits(*bits) as i64),
        Query::ReadLine => {
            if input.is_empty() {
                Answer::Text(String::new())
            } else {
                Answer::Text(input.remove(0))
            }
        }
    }
}

fn drive(ctx: &mut Ctx, input: &[&str]) -> String {
    let mut input: Vec<String> = input.iter().map(|s| s.to_string()).collect();
    let mut output = String::new();
    let mut event = Event::Resume;
    let mut steps = 0;
    loop {
        steps += 1;
        assert!(steps < 1_000_000, "the program does not end");
        match ctx.step(event) {
            Action::Continue => event = Event::Resume,
            Action::Ask(query) => event = Event::Answer(answer(&query, &mut input)),
            Action::Echo { text, newline } => {
                output.push_str(&text);
                if newline {
                    output.push('\n');
                }
                event = Event::Resume;
            }
            Action::Finished => return output,
        }
    }
}

fn parse_source<'a>(ctx: &mut Ctx<'a>, lexed: &Lexed) -> Result<Vec<Expression>, Error> {
    let mut tokens = Tokens::new(&lexed.items, &lexed.spans, &lexed.numbers);
    assert!(tokens.spans_within(ctx.contents));
    parse(ctx, &mut tokens)
}

fn run_with_input(source: &str, input: &[&str]) -> String {
    let lexed = lex(source);
    let statements;
    let mut ctx = Ctx::new(source);
    statements = match parse_source(&mut ctx, &lexed) {
        Ok(list) => list,
        Err(e) => panic!("parse error: {}", e.message),
    };
    ctx.run(&statements);
    drive(&mut ctx, input)
}

fn run(source: &str) -> String {
    run_with_input(source, &[])
}

fn parse_error(source: &str) -> (String, Option<Range<usize>>) {
    let lexed = lex(source);
    let mut ctx = Ctx::new(source);
    match parse_source(&mut ctx, &lexed) {
        Ok(_) => panic!("the program parses"),
        Err(e) => (e.message, e.location),
    }
}

#[test]
fn function_call_returns_thrown_value() {
    assert_eq!(run("function f($x) { throw($x + 1); } echo f(4);"), "5\n");
}

#[test]
fn function_without_throw_returns_void() {
    assert_eq!(run("function f($x) { $y = $x; } echo f(4);"), "<void>\n");
}

#[test]
fn bare_name_in_an_expression_is_a_parse_error() {
    let (message, location) = parse_error("function f($x) { throw(x + 1); } echo f(4);");
    assert_eq!(message, "Expected '(' after identifer");
    assert_eq!(location, Some(25..26));
}

#[test]
fn push_appends_to_shared_array() {
    assert_eq!(run("$a = arr(1,2,3); push($a, 4); echo count($a);"), "4\n");
}

#[test]
fn if_runs_the_true_branch() {
    assert_eq!(run("if lt(1,2) { echo \"yes\"; } else { echo \"no\"; }"), "yes\n");
}

#[test]
fn if_runs_the_false_branch() {
    assert_eq!(run("if lt(2,1) { echo \"yes\"; } else { echo \"no\"; }"), "no\n");
}

#[test]
fn while_counts_to_three() {
    assert_eq!(run("$i = 0; while lt($i, 3) { echo $i; $i = $i + 1; }"), "0\n1\n2\n");
}

#[test]
fn while_false_at_first_runs_else_once() {
    assert_eq!(run("while lt(1, 0) { echo 1; } else { echo 2; } echo 3;"), "2\n3\n");
}

#[test]
fn while_does_not_run_else_after_the_first_test() {
    let program = "$i = 0; while lt($i, 1) { $i = $i + 1; } else { echo \"never\"; } echo $i;";
    assert_eq!(run(program), "1\n");
}

#[test]
fn negative_multiply_reverses_graphemes() {
    assert_eq!(run("echo \"abc\" * -2;"), "cbacba\n");
}

#[test]
fn string_times_number_repeats() {
    assert_eq!(run("echo \"ab\" * 3;"), "ababab\n");
    assert_eq!(run("echo \"ab\" * 0;"), "\n");
}

#[test]
fn excess_arguments_are_pending() {
    let program = "function f($a, $b) { $r = args(); throw(get($r, 0)); } echo f(1, 2, 3);";
    assert_eq!(run(program), "3\n");
}

#[test]
fn parameters_are_bound_in_order() {
    let program = "function f($a, $b) { throw($a - $b); } echo f(10, 4, 99);";
    assert_eq!(run(program), "6\n");
}

#[test]
fn args_can_be_taken_once() {
    let program = "function f() { $x = args(); $y = args(); throw(count($x), count($y)); } \
                   echo f(1, 2);";
    assert_eq!(run(program), "[2, 0]\n");
}

#[test]
fn missing_arguments_read_as_void() {
    assert_eq!(run("function f($a, $b) { throw($b); } echo f(1);"), "<void>\n");
}

#[test]
fn pending_args_are_restored_after_an_inner_call() {
    let program = "function g() { throw(1); } \
                   function f() { g(7, 8, 9); throw(count(args())); } echo f(1, 2);";
    assert_eq!(run(program), "2\n");
}

#[test]
fn times_binds_tighter_than_plus() {
    assert_eq!(run("echo 1 + 2 * 3;"), "7\n");
    assert_eq!(run("echo 2 * 3 + 4;"), "10\n");
    assert_eq!(run("echo 2 + 3 * 4;"), "14\n");
    assert_eq!(run("echo 10 - 8 / 4;"), "8\n");
    assert_eq!(run("echo 8 / 4 - 1;"), "1\n");
    assert_eq!(run("echo 1 + 2 * 3 + 4;"), "11\n");
    assert_eq!(run("echo 2 * 3 + 4 * 5;"), "26\n");
}

fn listing(source: &str) -> String {
    let lexed = lex(source);
    let mut ctx = Ctx::new(source);
    let statements = parse_source(&mut ctx, &lexed).ok().unwrap();
    let mut memo = phpxx::host::Memo::new();
    for n in 0..10 {
        memo.record(Query::Format((n as f64).to_bits()), Answer::Text(n.to_string()));
    }
    phpxx::exprs::ConditionalExpr::visualize_block(&statements, &memo).ok().unwrap()
}

#[test]
fn operators_group_by_precedence() {
    assert_eq!(listing("echo 1 + 2 * 3;"), "echo (1 + (2 * 3))\n");
    assert_eq!(listing("echo 2 * 3 + 4;"), "echo ((2 * 3) + 4)\n");
    assert_eq!(listing("echo 1 - 2 - 3;"), "echo ((1 - 2) - 3)\n");
    assert_eq!(listing("echo 8 / 4 / 2;"), "echo ((8 / 4) / 2)\n");
    assert_eq!(listing("echo 1 * 2 + 3 * 4 - 5;"), "echo (((1 * 2) + (3 * 4)) - 5)\n");
    assert_eq!(listing("echo 1 + 2 * 3 / 4;"), "echo (1 + ((2 * 3) / 4))\n");
}

#[test]
fn listing_shows_every_kind_of_node() {
    let program = "function f($a) { throw(..$a, \"x y\"); } \
                   while lt($i, 3) { echo -n $i; $i = $i + 1; } else { f(); }";
    let expected = "JMP 3\nthrow(.. ($a), 'x y')\nthrow()\n\
                    while lt($i, 3) {\necho -n $i\n$i = ($i + 1)\n} else {\nf()\n}\n";
    assert_eq!(listing(program), expected);
    assert_eq!(listing("if 1 { }"), "if 1 {\n} else {\n}\n");
}

#[test]
fn listing_asks_for_the_text_of_a_number() {
    let source = "echo 12;";
    let lexed = lex(source);
    let mut ctx = Ctx::new(source);
    let statements = parse_source(&mut ctx, &lexed).ok().unwrap();
    let memo = phpxx::host::Memo::new();
    assert_eq!(statements[0].visualize(&memo), Err(Query::Format(12.0f64.to_bits())));
}

#[test]
fn error_function_left_open() {
    assert_eq!(
        parse_error("function f() {"),
        ("Expected '}' to close 'function' statement before end of file".to_string(), Some(13..14))
    );
    assert_eq!(
        parse_error("function f() { echo 1;"),
        ("Expected '}' to close 'function' statement before end of file".to_string(), Some(20..21))
    );
    assert_eq!(
        parse_error("if 1 { function f() { }"),
        ("Expected '}' to close 'function' statement before end of file".to_string(), Some(22..23))
    );
}

#[test]
fn same_tier_operators_fold_left() {
    assert_eq!(run("echo 10 - 4 - 3;"), "3\n");
    assert_eq!(run("echo 8 / 4 / 2;"), "1\n");
}

#[test]
fn number_arithmetic() {
    assert_eq!(run("echo 1 + 2;"), "3\n");
    assert_eq!(run("echo 1 / 2;"), "0.5\n");
    assert_eq!(run("echo 1.5 * 2;"), "3\n");
    assert_eq!(run("echo 1 / 0;"), "inf\n");
}

#[test]
fn number_coerces_the_other_side() {
    assert_eq!(run("echo 1 + \"2\";"), "3\n");
    assert_eq!(run("echo 1 + \"x\";"), "1\n");
    assert_eq!(run("echo 1 + arr(5, 6);"), "3\n");
    assert_eq!(run("echo 1 + nothing();"), "1\n");
}

#[test]
fn string_plus_joins() {
    assert_eq!(run("echo \"a\" + \"b\";"), "ab\n");
    assert_eq!(run("echo \"a\" + 1.5;"), "a1.5\n");
    assert_eq!(run("echo \"a\" + arr(1);"), "a\n");
}

#[test]
fn string_minus_number_drops_graphemes() {
    assert_eq!(run("echo \"hello\" - 2;"), "hel\n");
    assert_eq!(run("echo \"hello\" - 5;"), "\n");
    assert_eq!(run("echo \"hello\" - 9;"), "\n");
    assert_eq!(run("echo \"hello\" - 0;"), "hello\n");
}

#[test]
fn string_minus_negative_number_keeps_the_tail_in_order() {
    assert_eq!(run("echo \"hello\" - -2;"), "lo\n");
    assert_eq!(run("echo \"hello\" - -9;"), "hello\n");
}

#[test]
fn string_minus_string_is_numeric() {
    assert_eq!(run("echo \"10\" - \"4\";"), "6\n");
}

#[test]
fn string_divided_by_string_counts_matches() {
    assert_eq!(run("echo \"abcabcab\" / \"abc\";"), "2\n");
    assert_eq!(run("echo \"aaaa\" / \"aa\";"), "2\n");
    assert_eq!(run("echo \"abc\" / \"\";"), "4\n");
    assert_eq!(run("echo \"abc\" / \"x\";"), "0\n");
}

#[test]
fn string_divided_by_number_is_numeric() {
    assert_eq!(run("echo \"10\" / 4;"), "2.5\n");
}

#[test]
fn arithmetic_on_void_and_arrays_is_void() {
    assert_eq!(run("echo nothing() + 1;"), "<void>\n");
    assert_eq!(run("echo arr(1) * 2;"), "<void>\n");
}

#[test]
fn arrays_render_their_items() {
    assert_eq!(run("echo arr(1, \"a b\", arr(2, nothing()), \"x\");"), "[1, 'a b', [2, void], x]\n");
    assert_eq!(run("echo arr();"), "[]\n");
}

#[test]
fn repr_names_the_kind() {
    assert_eq!(run("echo repr(\"s\");"), "\"\"\n");
    assert_eq!(run("echo repr(1);"), "0\n");
    assert_eq!(run("echo repr(nothing());"), "void\n");
    assert_eq!(run("echo repr(arr());"), "[]\n");
    assert_eq!(run("echo repr();"), "<void>\n");
}

#[test]
fn eq_compares_by_the_left_kind() {
    assert_eq!(run("echo eq(1, 1);"), "1\n");
    assert_eq!(run("echo eq(1, 2);"), "0\n");
    assert_eq!(run("echo eq(\"1\", 1);"), "1\n");
    assert_eq!(run("echo eq(\"1.0\", 1);"), "0\n");
    assert_eq!(run("echo eq(1, \"1.0\");"), "1\n");
    assert_eq!(run("echo eq(nothing(), nothing());"), "1\n");
    assert_eq!(run("echo eq(nothing(), 0);"), "0\n");
    assert_eq!(run("echo eq(\"\", nothing());"), "1\n");
}

#[test]
fn eq_chain() {
    assert_eq!(run("echo eq(1, 1, 1);"), "1\n");
    assert_eq!(run("echo eq(1, 1, 2);"), "0\n");
    assert_eq!(run("echo eq(1);"), "1\n");
    assert_eq!(run("echo eq();"), "1\n");
}

#[test]
fn arrays_are_equal_by_contents_and_identical_by_storage() {
    assert_eq!(run("$a = arr(1, 2); $b = arr(1, 2); echo eq($a, $b); echo aka($a, $b);"), "1\n0\n");
    assert_eq!(run("$a = arr(1, 2); $b = $a; echo eq($a, $b); echo aka($a, $b);"), "1\n1\n");
    assert_eq!(run("$a = arr(1, 2); $b = arr(1, 3); echo eq($a, $b);"), "0\n");
    assert_eq!(run("$a = arr(1, 2); $b = arr(1); echo eq($a, $b);"), "0\n");
    assert_eq!(run("echo eq(arr(arr(1)), arr(arr(1)));"), "1\n");
}

#[test]
fn aka_needs_arrays() {
    assert_eq!(run("echo aka(1, 1);"), "0\n");
    assert_eq!(run("$a = arr(); echo aka($a, $a, $a);"), "1\n");
    assert_eq!(run("$a = arr(); echo aka($a, $a, arr());"), "0\n");
}

#[test]
fn mutation_is_seen_through_every_alias() {
    assert_eq!(run("$a = arr(1); $b = $a; push($b, 2); echo $a;"), "[1, 2]\n");
}

#[test]
fn lt_compares_by_the_left_kind() {
    assert_eq!(run("echo lt(1, 2);"), "1\n");
    assert_eq!(run("echo lt(2, 1);"), "0\n");
    assert_eq!(run("echo lt(-1, 0);"), "1\n");
    assert_eq!(run("echo lt(\"a\", \"b\");"), "1\n");
    assert_eq!(run("echo lt(\"b\", \"a\");"), "0\n");
    assert_eq!(run("echo lt(\"a\", \"ab\");"), "1\n");
    assert_eq!(run("echo lt(\"10\", 9);"), "1\n");
    assert_eq!(run("echo lt(nothing(), 1);"), "1\n");
    assert_eq!(run("echo lt(arr(1, 2), 3);"), "1\n");
    assert_eq!(run("echo lt(arr(1, 2), 2);"), "0\n");
    assert_eq!(run("echo lt(1, 2, 3);"), "1\n");
    assert_eq!(run("echo lt(1, 3, 2);"), "0\n");
    assert_eq!(run("echo lt(1);"), "1\n");
}

#[test]
fn pop_and_pull_take_items() {
    assert_eq!(run("$a = arr(1, 2, 3); echo pop($a); echo pull($a); echo $a;"), "3\n1\n[2]\n");
    assert_eq!(run("$a = arr(); echo pop($a); echo pull($a);"), "<void>\n<void>\n");
    assert_eq!(run("echo pop(1); echo pull(1);"), "<void>\n<void>\n");
}

#[test]
fn get_reads_an_item() {
    assert_eq!(run("$a = arr(7, 8); echo get($a, 1);"), "8\n");
    assert_eq!(run("$a = arr(7, 8); echo get($a, 2);"), "<void>\n");
    assert_eq!(run("$a = arr(7, 8); echo get($a, \"1\");"), "8\n");
    assert_eq!(run("$a = arr(7, 8); echo get($a, 0.9);"), "7\n");
    assert_eq!(run("$a = arr(7, 8); echo get($a, -1);"), "<void>\n");
    assert_eq!(run("$a = arr(7, 8); echo get($a, -0.5);"), "7\n");
    assert_eq!(run("echo get(1, 0);"), "<void>\n");
    assert_eq!(run("$a = arr(7, 8); echo get($a);"), "<void>\n");
}

#[test]
fn count_measures() {
    assert_eq!(run("echo count(arr(1, 2));"), "2\n");
    assert_eq!(run("echo count(\"abc\");"), "3\n");
    assert_eq!(run("echo count(\"é\");"), "2\n");
    assert_eq!(run("echo count(5);"), "0\n");
    assert_eq!(run("echo count();"), "<void>\n");
}

#[test]
fn spread_expands_in_argument_lists() {
    assert_eq!(run("$a = arr(1, 2); echo count(arr(0, ..$a, 3));"), "4\n");
    assert_eq!(run("$a = arr(1, 2); echo arr(..$a, ..$a);"), "[1, 2, 1, 2]\n");
    assert_eq!(run("echo arr(..5);"), "[5]\n");
    assert_eq!(run("function f($x, $y) { throw($x + $y); } $a = arr(1, 2); echo f(..$a);"), "3\n");
}

#[test]
fn stored_values_carry_no_spread_mark() {
    assert_eq!(run("$a = arr(1, 2); $b = ..$a; echo count(arr($b));"), "1\n");
}

#[test]
fn throw_of_several_values_is_an_array() {
    assert_eq!(run("function f() { throw(1, 2); } echo f();"), "[1, 2]\n");
    assert_eq!(run("function f() { throw(); } echo f();"), "<void>\n");
}

#[test]
fn uncaught_throw_stops_the_program() {
    assert_eq!(run("echo 1; throw(2); echo 3;"), "1\n");
}

#[test]
fn throw_in_a_block_does_not_stop_the_block() {
    assert_eq!(run("function f() { if 1 { throw(1); echo 2; } echo 3; } echo f();"), "2\n1\n");
}

#[test]
fn function_bodies_are_skipped_at_top_level() {
    assert_eq!(run("echo 1; function f() { echo 2; } echo 3;"), "1\n3\n");
}

#[test]
fn redeclared_function_replaces_the_first() {
    assert_eq!(run("function f() { throw(1); } function f() { throw(2); } echo f();"), "2\n");
}

#[test]
fn unknown_function_is_void() {
    assert_eq!(run("echo nothing(1, 2);"), "<void>\n");
}

#[test]
fn built_in_names_win_over_user_functions() {
    assert_eq!(run("function count() { throw(99); } echo count(arr(1));"), "1\n");
}

#[test]
fn unknown_variable_is_void() {
    assert_eq!(run("echo $nope;"), "<void>\n");
}

#[test]
fn function_scope_is_hard() {
    let program = "$x = 1; function f() { $x = 2; throw($x); } echo f(); echo $x;";
    assert_eq!(run(program), "2\n1\n");
    assert_eq!(run("$x = 1; function f() { throw($x); } echo f();"), "<void>\n");
}

#[test]
fn block_scope_is_soft() {
    assert_eq!(run("$x = 1; if 1 { $x = 2; $y = 3; } echo $x; echo $y;"), "2\n<void>\n");
}

#[test]
fn scope_built_ins() {
    assert_eq!(run("$x = 1; push(); $y = 2; $x = 3; pop(); echo $x; echo $y;"), "3\n<void>\n");
    assert_eq!(run("$x = 1; up(); echo $x; $x = 2; down(); echo $x;"), "<void>\n1\n");
    assert_eq!(run("$x = 1; pop(); pop(); echo $x;"), "1\n");
    assert_eq!(run("$x = 1; down(); echo $x;"), "1\n");
}

#[test]
fn call_leaves_no_frames_behind() {
    let program = "$x = 1; function f() { push(); push(); throw(0); } f(); echo $x;";
    assert_eq!(run(program), "1\n");
}

#[test]
fn echo_without_newline() {
    assert_eq!(run("echo -n 1; echo -n \"a\"; echo 2;"), "1a2\n");
}

#[test]
fn readline_hands_out_lines() {
    assert_eq!(run_with_input("$a = readline(); echo $a + readline();", &["x", "y"]), "xy\n");
}

#[test]
fn string_literals_are_unescaped() {
    assert_eq!(run("echo \"a\\tb\";"), "a\tb\n");
    assert_eq!(run("echo \"a\\\"b\";"), "a\"b\n");
}

#[test]
fn truthiness() {
    assert_eq!(run("if 0 { echo 1; } else { echo 0; }"), "0\n");
    assert_eq!(run("if \"0\" { echo 1; } else { echo 0; }"), "0\n");
    assert_eq!(run("if \"2\" { echo 1; } else { echo 0; }"), "1\n");
    assert_eq!(run("if \"x\" { echo 1; } else { echo 0; }"), "0\n");
    assert_eq!(run("if arr() { echo 1; } else { echo 0; }"), "0\n");
    assert_eq!(run("if arr(0) { echo 1; } else { echo 0; }"), "1\n");
    assert_eq!(run("if nothing() { echo 1; } else { echo 0; }"), "0\n");
    assert_eq!(run("if 0 / 0 { echo 1; } else { echo 0; }"), "1\n");
}

#[test]
fn nan_equals_nothing() {
    assert_eq!(run("$n = 0 / 0; echo eq($n, $n); echo lt($n, 1); echo lt(1, $n);"), "0\n0\n0\n");
}

#[test]
fn negative_zero_equals_zero() {
    assert_eq!(run("$z = 0 * -1; echo eq($z, 0); echo lt($z, 0); echo lt(0, $z);"), "1\n0\n0\n");
}

#[test]
fn recursion() {
    let program = "function fact($n) { if lt($n, 2) { throw(1); } throw($n * fact($n - 1)); } \
                   echo fact(5);";
    assert_eq!(run(program), "120\n");
}

#[test]
fn comments_are_skipped() {
    assert_eq!(run("# a comment\necho 1; // another\necho 2;"), "1\n2\n");
}

#[test]
fn error_unknown_statement() {
    assert_eq!(parse_error("echo 1; )"), ("Unknown Statement".to_string(), Some(8..9)));
}

#[test]
fn error_echo_option() {
    assert_eq!(
        parse_error("echo - 1"),
        ("Expected option after '-' after 'echo'".to_string(), Some(7..8))
    );
    assert_eq!(
        parse_error("echo -"),
        ("Expected option after '-' after 'echo'".to_string(), Some(5..6))
    );
    assert_eq!(
        parse_error("echo -x 1"),
        ("Invalid option -x given to 'echo'".to_string(), Some(6..7))
    );
}

#[test]
fn error_assignment() {
    assert_eq!(
        parse_error("$a 1"),
        ("Expected '=' after variable name in statement".to_string(), Some(3..4))
    );
}

#[test]
fn error_function_header() {
    assert_eq!(
        parse_error("function f() { function g() { } }"),
        ("Already in function".to_string(), Some(15..23))
    );
    assert_eq!(parse_error("function ("), ("Expected name of function".to_string(), Some(9..10)));
    assert_eq!(
        parse_error("function f {"),
        ("Expected '(' after function name".to_string(), Some(11..12))
    );
    assert_eq!(
        parse_error("function f(1)"),
        ("Expected ')' or ',' in list of function arguments".to_string(), Some(11..12))
    );
    assert_eq!(
        parse_error("function f($a $b) {"),
        ("Expected ')' or ',' after function argument name".to_string(), Some(16..17))
    );
    assert_eq!(
        parse_error("function f($a) echo"),
        ("Expected '{' after function".to_string(), Some(15..19))
    );
}

#[test]
fn error_closing_brace() {
    assert_eq!(parse_error("}"), ("Unexpected '}'".to_string(), Some(0..1)));
}

#[test]
fn error_conditional() {
    assert_eq!(
        parse_error("if 1 echo 2;"),
        ("Expected '{' after condition of 'if' statement".to_string(), Some(5..9))
    );
    assert_eq!(
        parse_error("while 1 { echo 2; } else echo 3;"),
        ("Expected '{' after 'else' keyword of 'while' statement".to_string(), Some(25..29))
    );
    assert_eq!(
        parse_error("while 1 { echo 2;"),
        ("Expected '}' to close 'while' statement before end of file".to_string(), Some(15..16))
    );
}

#[test]
fn error_expression() {
    assert_eq!(parse_error("echo"), ("Failed to parse expression".to_string(), Some(0..4)));
    assert_eq!(parse_error("echo )"), ("bad expression".to_string(), Some(5..6)));
    assert_eq!(parse_error("echo 1_0;"), ("bad number".to_string(), Some(5..8)));
    assert_eq!(parse_error("echo \"\\u\";"), ("bad string escape".to_string(), Some(5..9)));
}

#[test]
fn error_call() {
    assert_eq!(parse_error("f 1"), ("Expected '(' after identifer".to_string(), Some(2..3)));
    assert_eq!(parse_error("f(1,"), ("Expected ')' before end of file".to_string(), Some(3..4)));
    assert_eq!(parse_error("f("), ("Expected ')' before end of file".to_string(), Some(1..2)));
    assert_eq!(
        parse_error("f(1"),
        ("Expected ',' or ')' after argument to call".to_string(), Some(2..3))
    );
    assert_eq!(
        parse_error("f(1 2)"),
        ("Expected ',' or ')' after argument to call".to_string(), Some(4..5))
    );
}

#[test]
fn function_header_becomes_a_jump_behind_the_body() {
    let source = "function f() { echo 1; } echo 2;";
    let lexed = lex(source);
    let mut ctx = Ctx::new(source);
    let statements = parse_source(&mut ctx, &lexed).ok().unwrap();
    assert_eq!(statements.len(), 4);
    match &statements[0] {
        Expression::Jump(jump) => assert_eq!(jump.address, 3),
        _ => panic!("the header is no jump"),
    }
    match &statements[2] {
        Expression::Call(call) => {
            assert_eq!(call.function, "throw");
            assert!(call.args.is_empty());
        }
        _ => panic!("the body does not end with a throw"),
    }
    assert_eq!(ctx.parsing_function, None);
    assert_eq!(ctx.functions.len(), 1);
    assert_eq!(ctx.functions[0].0, "f");
    assert_eq!(ctx.functions[0].1.address, 1);
}
