//! What one step of the evaluation engine does, stated on the views of the
//! interpreter's state.
//!
//! The engine keeps the steps still to take on a stack.  A step takes the
//! topmost one and does it; doing it may put further steps on the stack.
//! Expression values travel on a second stack.  A step that needs the host
//! changes nothing and asks; it is taken again when the answer is there.

use crate::builtins::{
    alias_chain, counted, equal_chain, fetched, kind_tag, less_chain, nesting_limit, rendered,
    truth_value,
};
use crate::ctx::{
    left_call, popped, pushed, read, well_formed, without_soft_top, written, written_here, CtxView,
    FrameView, ScopeView,
};
use crate::exprs::ExprView;
use crate::host::{ask_text, fits, ActionView, EventView, ExchangeView, Operator, QueryView};
use crate::lex::Token;
use crate::number::{ONE, ZERO};
use crate::value::{applied, items_of, truth_of, unmarked, ArrayExpr, ValueView};
use vstd::prelude::*;

verus! {

/// The value on top of the value stack; void where the stack is empty.
pub open spec fn top(values: Seq<ValueView>) -> ValueView {
    if values.len() > 0 {
        values.last()
    } else {
        ValueView::Void
    }
}

/// The value below the top.
pub open spec fn second(values: Seq<ValueView>) -> ValueView {
    if values.len() > 1 {
        values[values.len() - 2]
    } else {
        ValueView::Void
    }
}

/// The stack without its topmost `count` values.
pub open spec fn dropped(values: Seq<ValueView>, count: nat) -> Seq<ValueView> {
    if values.len() >= count {
        values.take(values.len() - count)
    } else {
        Seq::empty()
    }
}

/// The state with `v` on top of the value stack.
pub open spec fn with_value(s: CtxView, v: ValueView) -> CtxView {
    CtxView { values: s.values.push(v), ..s }
}

/// The state with one more step to take.
pub open spec fn with_step(s: CtxView, f: FrameView) -> CtxView {
    CtxView { work: s.work.push(f), ..s }
}

/// The operator that a token stands for.
pub open spec fn operator_of(token: Token) -> Option<Operator> {
    match token {
        Token::Plus => Some(Operator::Plus),
        Token::Minus => Some(Operator::Minus),
        Token::Multiply => Some(Operator::Multiply),
        Token::Divide => Some(Operator::Divide),
        _ => None,
    }
}

/// Each value without a spread mark.
pub open spec fn all_unmarked(values: Seq<ValueView>) -> Seq<ValueView> {
    Seq::new(values.len(), |i: int| unmarked(values[i]))
}

/// The argument list with every spread-marked array replaced by its items.
pub open spec fn expanded(args: Seq<ValueView>, arrays: Seq<Seq<ValueView>>) -> Seq<ValueView>
    decreases args.len(),
{
    if args.len() == 0 {
        Seq::empty()
    } else {
        expanded(args.drop_last(), arrays) + spread_of(args.last(), arrays)
    }
}

/// What one argument contributes to an argument list.
pub open spec fn spread_of(v: ValueView, arrays: Seq<Seq<ValueView>>) -> Seq<ValueView> {
    match v {
        ValueView::Array(handle) if handle.spread => items_of(arrays, handle.id),
        _ => seq![v],
    }
}

/// The state with a new array of these items, and the handle to it.
pub open spec fn allocated(s: CtxView, items: Seq<ValueView>) -> (CtxView, ValueView) {
    (
        CtxView { arrays: s.arrays.push(all_unmarked(items)), ..s },
        ValueView::Array(ArrayExpr { id: s.arrays.len() as usize, spread: false }),
    )
}

/// The scope stack after the first parameters are bound to the first
/// arguments, pair by pair from `from` on, in the topmost frame.
pub open spec fn bound(
    scopes: Seq<ScopeView>,
    names: Seq<Seq<char>>,
    args: Seq<ValueView>,
    from: nat,
) -> Seq<ScopeView>
    decreases names.len() - from,
{
    if from >= names.len() || from >= args.len() {
        scopes
    } else {
        bound(
            written_here(scopes, names[from as int], unmarked(args[from as int])),
            names,
            args,
            from + 1,
        )
    }
}

/// The call protocol: the arguments are expanded; a hard frame is pushed
/// and the parameters are bound in it; the arguments beyond the parameters
/// become the pending arguments; the driving loop is set to the function's
/// entry point, and behind it the step that hands back the result and
/// restores the caller's pending arguments.  An unknown function yields
/// void.
pub open spec fn entered(s: CtxView, name: Seq<char>, raw_args: Seq<ValueView>) -> CtxView {
    if s.functions.contains_key(name) {
        let f = s.functions[name];
        let args = expanded(raw_args, s.arrays);
        CtxView {
            scopes: bound(pushed(s.scopes, true), f.args, args, 0),
            args: if args.len() > f.args.len() {
                args.skip(f.args.len() as int)
            } else {
                Seq::empty()
            },
            work: s.work.push(FrameView::Return { saved: s.args }).push(
                FrameView::Drive { next: f.address },
            ),
            ..s
        }
    } else {
        with_value(s, ValueView::Void)
    }
}

/// The value that `throw` raises for these arguments, with the state in
/// which it exists: void for none, the argument for one, a new array of
/// them for more.
pub open spec fn payload(s: CtxView, args: Seq<ValueView>) -> (CtxView, ValueView) {
    if args.len() == 0 {
        (s, ValueView::Void)
    } else if args.len() == 1 {
        (s, args[0])
    } else {
        allocated(s, args)
    }
}

/// The array store with `items` as the items of array `id`.
pub open spec fn with_items(arrays: Seq<Seq<ValueView>>, id: usize, items: Seq<ValueView>) -> Seq<
    Seq<ValueView>,
> {
    if id < arrays.len() {
        arrays.update(id as int, items)
    } else {
        arrays
    }
}

/// What a built-in or user function does when called with these evaluated
/// arguments.  Built-in names come first; any other name is looked up in
/// the function table.
pub open spec fn invoked(s: CtxView, name: Seq<char>, args: Seq<ValueView>) -> Result<
    CtxView,
    QueryView,
> {
    if name == "repr"@ {
        Ok(with_value(s, kind_tag(args)))
    } else if name == "readline"@ {
        match ask_text(s.memo, QueryView::ReadLine) {
            Ok(line) => Ok(with_value(s, ValueView::String(line))),
            Err(q) => Err(q),
        }
    } else if name == "eq"@ {
        match truth_value(equal_chain(args, 0, s.arrays, s.memo, nesting_limit(s.arrays))) {
            Ok(v) => Ok(with_value(s, v)),
            Err(q) => Err(q),
        }
    } else if name == "lt"@ {
        match truth_value(less_chain(args, 0, s.arrays, s.memo)) {
            Ok(v) => Ok(with_value(s, v)),
            Err(q) => Err(q),
        }
    } else if name == "push"@ {
        Ok(with_value(pushed_onto(s, args), ValueView::Void))
    } else if name == "pop"@ {
        Ok(popped_off(s, args))
    } else if name == "pull"@ {
        Ok(pulled_off(s, args))
    } else if name == "up"@ {
        Ok(with_value(CtxView { scopes: pushed(s.scopes, true), ..s }, ValueView::Void))
    } else if name == "down"@ {
        Ok(with_value(CtxView { scopes: left_call(s.scopes), ..s }, ValueView::Void))
    } else if name == "arr"@ {
        Ok(with_value(allocated(s, args).0, allocated(s, args).1))
    } else if name == "aka"@ {
        Ok(
            with_value(
                s,
                ValueView::Number(
                    if alias_chain(args, 0) {
                        ONE
                    } else {
                        ZERO
                    },
                ),
            ),
        )
    } else if name == "throw"@ {
        Ok(
            with_value(
                CtxView {
                    threw: true,
                    thrown: unmarked(payload(s, args).1),
                    ..payload(s, args).0
                },
                ValueView::Void,
            ),
        )
    } else if name == "args"@ {
        Ok(
            with_value(
                CtxView { args: Seq::empty(), ..allocated(s, s.args).0 },
                allocated(s, s.args).1,
            ),
        )
    } else if name == "get"@ {
        match fetched(args, s.arrays, s.memo) {
            Ok(v) => Ok(with_value(s, v)),
            Err(q) => Err(q),
        }
    } else if name == "count"@ {
        match counted(args, s.arrays, s.memo) {
            Ok(v) => Ok(with_value(s, v)),
            Err(q) => Err(q),
        }
    } else {
        Ok(entered(s, name, args))
    }
}

/// `push`: without arguments a new soft scope frame; with an array and a
/// value, the value at the array's end; nothing else.
pub open spec fn pushed_onto(s: CtxView, args: Seq<ValueView>) -> CtxView {
    if args.len() == 0 {
        CtxView { scopes: pushed(s.scopes, false), ..s }
    } else if args.len() == 2 {
        match args[0] {
            ValueView::Array(handle) => CtxView {
                arrays: with_items(
                    s.arrays,
                    handle.id,
                    items_of(s.arrays, handle.id).push(unmarked(args[1])),
                ),
                ..s
            },
            _ => s,
        }
    } else {
        s
    }
}

/// `pop`: without arguments the topmost scope frame goes; with an array,
/// its last item goes and is the result; void otherwise.
pub open spec fn popped_off(s: CtxView, args: Seq<ValueView>) -> CtxView {
    if args.len() == 0 {
        with_value(CtxView { scopes: popped(s.scopes), ..s }, ValueView::Void)
    } else if args.len() == 1 {
        match args[0] {
            ValueView::Array(handle) if items_of(s.arrays, handle.id).len() > 0 => with_value(
                CtxView {
                    arrays: with_items(
                        s.arrays,
                        handle.id,
                        items_of(s.arrays, handle.id).drop_last(),
                    ),
                    ..s
                },
                items_of(s.arrays, handle.id).last(),
            ),
            _ => with_value(s, ValueView::Void),
        }
    } else {
        with_value(s, ValueView::Void)
    }
}

/// `pull`: the first item of an array goes and is the result; void
/// otherwise.
pub open spec fn pulled_off(s: CtxView, args: Seq<ValueView>) -> CtxView {
    if args.len() == 1 {
        match args[0] {
            ValueView::Array(handle) if items_of(s.arrays, handle.id).len() > 0 => with_value(
                CtxView {
                    arrays: with_items(
                        s.arrays,
                        handle.id,
                        items_of(s.arrays, handle.id).drop_first(),
                    ),
                    ..s
                },
                items_of(s.arrays, handle.id).first(),
            ),
            _ => with_value(s, ValueView::Void),
        }
    } else {
        with_value(s, ValueView::Void)
    }
}

/// Evaluating a node: a literal or a variable yields its value; a jump
/// sets the pending jump; every other node puts its parts on the stack of
/// steps, the part to do first on top.
pub open spec fn evaluated(s: CtxView, e: ExprView) -> CtxView {
    match e {
        ExprView::Void => with_value(s, ValueView::Void),
        ExprView::Number(bits) => with_value(s, ValueView::Number(bits)),
        ExprView::String(text) => with_value(s, ValueView::String(text)),
        ExprView::Variable(name) => with_value(s, read(s.scopes, name)),
        ExprView::Assign { variable, value } => with_step(
            with_step(s, FrameView::Store(variable)),
            FrameView::Eval(*value),
        ),
        ExprView::Call { function, args } => with_step(
            s,
            FrameView::Collect { call: e, next: 0, base: s.values.len() as usize },
        ),
        ExprView::Echo { value, newline } => with_step(
            with_step(s, FrameView::Print { newline }),
            FrameView::Eval(*value),
        ),
        ExprView::Math { lhs, operator, rhs } => with_step(
            with_step(with_step(s, FrameView::Operate { operator }), FrameView::Eval(*rhs)),
            FrameView::Eval(*lhs),
        ),
        ExprView::Conditional { condition, when_true, when_false, is_while } => with_step(
            with_step(s, FrameView::Test { node: e, first: true }),
            FrameView::Eval(*condition),
        ),
        ExprView::Jump(address) => with_value(
            CtxView { jump: Some(address), ..s },
            ValueView::Void,
        ),
        ExprView::Spread(inner) => with_step(with_step(s, FrameView::Mark), FrameView::Eval(*inner)),
    }
}

/// An assignment's second half: the value on top of the stack is written
/// to the variable; the assignment itself yields void.
pub open spec fn stored(s: CtxView, name: Seq<char>) -> CtxView {
    CtxView {
        scopes: written(s.scopes, name, unmarked(top(s.values))),
        values: dropped(s.values, 1).push(ValueView::Void),
        ..s
    }
}

/// The value stack after an argument was evaluated: a spread-marked array
/// on top gives way to its items.
pub open spec fn spliced(s: CtxView) -> Seq<ValueView> {
    match top(s.values) {
        ValueView::Array(handle) if handle.spread && s.values.len() > 0 => dropped(s.values, 1)
            + items_of(s.arrays, handle.id),
        _ => s.values,
    }
}

/// Evaluating a call's arguments, left to right: behind each argument its
/// value is spliced; behind the last, the values above `base` leave the
/// stack as the call's arguments.
pub open spec fn collected(s: CtxView, call: ExprView, next: usize, base: usize) -> CtxView {
    match call {
        ExprView::Call { function, args } => {
            let values = if next > 0 {
                spliced(s)
            } else {
                s.values
            };
            if next < args.len() {
                CtxView {
                    values,
                    work: s.work.push(
                        FrameView::Collect { call, next: (next + 1) as usize, base },
                    ).push(FrameView::Eval(args[next as int])),
                    ..s
                }
            } else if base <= values.len() {
                CtxView {
                    values: values.take(base as int),
                    work: s.work.push(
                        FrameView::Invoke { call, args: values.skip(base as int) },
                    ),
                    ..s
                }
            } else {
                CtxView {
                    values,
                    work: s.work.push(FrameView::Invoke { call, args: Seq::empty() }),
                    ..s
                }
            }
        },
        _ => s,
    }
}

/// `echo`'s second half: the value on top of the stack is rendered and
/// handed to the host.
pub open spec fn printed(s: CtxView, newline: bool) -> Result<(CtxView, ActionView), QueryView> {
    match rendered(top(s.values), s.arrays, s.memo, nesting_limit(s.arrays)) {
        Err(q) => Err(q),
        Ok(text) => Ok(
            (
                CtxView { values: dropped(s.values, 1).push(ValueView::Void), ..s },
                ActionView::Echo { text, newline },
            ),
        ),
    }
}

/// A binary operation's last part: the operator is applied to the two
/// values on top of the stack, the left one below the right one.
pub open spec fn operated(s: CtxView, operator: Token) -> Result<CtxView, QueryView> {
    match operator_of(operator) {
        None => Ok(CtxView { values: dropped(s.values, 2).push(ValueView::Void), ..s }),
        Some(op) => match applied(op, second(s.values), top(s.values), s.arrays, s.memo) {
            Err(q) => Err(q),
            Ok(v) => Ok(CtxView { values: dropped(s.values, 2).push(v), ..s }),
        },
    }
}

/// The branch that a conditional runs: the true branch where the condition
/// holds, the false branch where it fails at the first test, nothing where
/// it fails later.
pub open spec fn branch(node: ExprView, truth: bool, first: bool) -> Seq<ExprView> {
    match node {
        ExprView::Conditional { condition, when_true, when_false, is_while } => if truth {
            when_true
        } else if first {
            when_false
        } else {
            Seq::empty()
        },
        _ => Seq::empty(),
    }
}

/// A conditional behind its condition: the truth of the value on top of
/// the stack chooses the branch, which runs in a new soft scope frame.
pub open spec fn tested(s: CtxView, node: ExprView, first: bool) -> Result<CtxView, QueryView> {
    match truth_of(top(s.values), s.arrays, s.memo) {
        Err(q) => Err(q),
        Ok(truth) => Ok(
            CtxView {
                values: dropped(s.values, 1),
                scopes: pushed(s.scopes, false),
                work: s.work.push(FrameView::Block { node, truth, first, next: 0 }),
                ..s
            },
        ),
    }
}

/// A branch body before its statement `next`.  The value of the statement
/// before is dropped.  Behind the last statement the soft frame goes; a
/// `while` whose condition held tests again, anything else yields void.
pub open spec fn continued(s: CtxView, node: ExprView, truth: bool, first: bool, next: usize) -> CtxView {
    let body = branch(node, truth, first);
    let values = if next > 0 {
        dropped(s.values, 1)
    } else {
        s.values
    };
    if next < body.len() {
        CtxView {
            values,
            work: s.work.push(
                FrameView::Block { node, truth, first, next: (next + 1) as usize },
            ).push(FrameView::Eval(body[next as int])),
            ..s
        }
    } else {
        match node {
            ExprView::Conditional { condition, when_true, when_false, is_while } if is_while
                && truth => CtxView {
                values,
                scopes: popped(s.scopes),
                work: s.work.push(FrameView::Test { node, first: false }).push(
                    FrameView::Eval(*condition),
                ),
                ..s
            },
            _ => CtxView {
                values: values.push(ValueView::Void),
                scopes: popped(s.scopes),
                ..s
            },
        }
    }
}

/// The spread operator's second half: an array on top of the stack gets
/// the spread mark.
pub open spec fn marked(s: CtxView) -> CtxView {
    match top(s.values) {
        ValueView::Array(handle) if s.values.len() > 0 => CtxView {
            values: dropped(s.values, 1).push(
                ValueView::Array(ArrayExpr { id: handle.id, spread: true }),
            ),
            ..s
        },
        _ => s,
    }
}

/// The driving loop before statement `next`: the statement is evaluated
/// and the loop goes on behind it; past the end of the list the loop is
/// over.
pub open spec fn driven(s: CtxView, next: usize) -> CtxView {
    match s.statements {
        Some(list) if next < list.len() => with_step(
            with_step(s, FrameView::After { at: next }),
            FrameView::Eval(list[next as int]),
        ),
        _ => s,
    }
}

/// The driving loop behind statement `at`: the statement's value is
/// dropped; a thrown value ends the loop; a pending jump moves it;
/// otherwise it goes to the next statement.
pub open spec fn advanced_loop(s: CtxView, at: usize) -> CtxView {
    let values = dropped(s.values, 1);
    if s.threw {
        CtxView { values, ..s }
    } else {
        match s.jump {
            Some(target) => CtxView {
                values,
                jump: None,
                work: s.work.push(FrameView::Drive { next: target }),
                ..s
            },
            None => if at < usize::MAX {
                CtxView {
                    values,
                    work: s.work.push(FrameView::Drive { next: (at + 1) as usize }),
                    ..s
                }
            } else {
                CtxView { values, ..s }
            },
        }
    }
}

/// The end of a call: a thrown value is caught and is the result, void
/// otherwise; the caller's pending arguments come back; the call's scope
/// frames go.
pub open spec fn returned(s: CtxView, saved: Seq<ValueView>) -> CtxView {
    CtxView {
        threw: false,
        thrown: if s.threw {
            ValueView::Void
        } else {
            s.thrown
        },
        args: saved,
        scopes: left_call(s.scopes),
        values: s.values.push(
            if s.threw {
                s.thrown
            } else {
                ValueView::Void
            },
        ),
        ..s
    }
}

pub open spec fn proceed(r: Result<CtxView, QueryView>) -> Result<(CtxView, ActionView), QueryView> {
    match r {
        Ok(s) => Ok((s, ActionView::Continue)),
        Err(q) => Err(q),
    }
}

/// What doing the step `f` makes of the state `s`, and what it wants of the
/// host; or the query that has to be answered first.
pub open spec fn performed(s: CtxView, f: FrameView) -> Result<(CtxView, ActionView), QueryView> {
    match f {
        FrameView::Eval(e) => Ok((evaluated(s, e), ActionView::Continue)),
        FrameView::Store(name) => Ok((stored(s, name), ActionView::Continue)),
        FrameView::Collect { call, next, base } => Ok(
            (collected(s, call, next, base), ActionView::Continue),
        ),
        FrameView::Invoke { call, args } => match call {
            ExprView::Call { function, args: _ } => proceed(invoked(s, function, args)),
            _ => Ok((s, ActionView::Continue)),
        },
        FrameView::Print { newline } => printed(s, newline),
        FrameView::Operate { operator } => proceed(operated(s, operator)),
        FrameView::Test { node, first } => proceed(tested(s, node, first)),
        FrameView::Block { node, truth, first, next } => Ok(
            (continued(s, node, truth, first, next), ActionView::Continue),
        ),
        FrameView::Mark => Ok((marked(s), ActionView::Continue)),
        FrameView::Drive { next } => Ok((driven(s, next), ActionView::Continue)),
        FrameView::After { at } => Ok((advanced_loop(s, at), ActionView::Continue)),
        FrameView::Return { saved } => Ok((returned(s, saved), ActionView::Continue)),
    }
}

/// The state after the host's event is taken in: an answer of the kind
/// that the open query asks for is recorded; the query is open no more.
pub open spec fn informed(s: CtxView, event: EventView) -> CtxView {
    match (s.asked, event) {
        (Some(query), EventView::Answer(answer)) if fits(query, answer) => CtxView {
            memo: s.memo.push(ExchangeView { query, answer }),
            asked: None,
            ..s
        },
        _ => CtxView { asked: None, ..s },
    }
}

/// One step of the engine.
///
/// The event is taken in.  With nothing left to do the run is finished.
/// Otherwise the topmost step is done and the answers of the host are
/// forgotten; where the step needs an answer first, it stays on the stack,
/// all else stays as it was, and the query goes to the host.
pub open spec fn step(s: CtxView, event: EventView) -> (CtxView, ActionView) {
    let ready = informed(s, event);
    if ready.work.len() == 0 {
        (ready, ActionView::Finished)
    } else {
        let rest = CtxView { work: ready.work.drop_last(), ..ready };
        match performed(rest, ready.work.last()) {
            Ok((after, action)) => (CtxView { memo: Seq::empty(), ..after }, action),
            Err(query) => (CtxView { asked: Some(query), ..ready }, ActionView::Ask(query)),
        }
    }
}

proof fn lemma_written_keeps_bottom(scopes: Seq<ScopeView>, name: Seq<char>, v: ValueView)
    requires
        well_formed(scopes),
    ensures
        well_formed(written(scopes, name, v)),
        well_formed(written_here(scopes, name, v)),
{
    crate::ctx::read_after_write(scopes, name, v);
}

proof fn lemma_soft_top_keeps_bottom(scopes: Seq<ScopeView>)
    requires
        well_formed(scopes),
    ensures
        well_formed(without_soft_top(scopes)),
    decreases scopes.len(),
{
    if scopes.len() > 1 && !scopes.last().is_hard {
        lemma_soft_top_keeps_bottom(scopes.drop_last());
    }
}

proof fn lemma_bound_keeps_bottom(
    scopes: Seq<ScopeView>,
    names: Seq<Seq<char>>,
    args: Seq<ValueView>,
    from: nat,
)
    requires
        well_formed(scopes),
    ensures
        well_formed(bound(scopes, names, args, from)),
    decreases names.len() - from,
{
    if from >= names.len() || from >= args.len() {
    } else {
        lemma_bound_keeps_bottom(
            written_here(scopes, names[from as int], unmarked(args[from as int])),
            names,
            args,
            from + 1,
        );
    }
}

/// No step takes away the bottom frame of the scope stack or makes it
/// soft.
pub proof fn step_keeps_the_bottom_frame(s: CtxView, event: EventView)
    requires
        well_formed(s.scopes),
    ensures
        well_formed(step(s, event).0.scopes),
{
    let ready = informed(s, event);
    if ready.work.len() > 0 {
        let rest = CtxView { work: ready.work.drop_last(), ..ready };
        lemma_soft_top_keeps_bottom(rest.scopes);
        match ready.work.last() {
            FrameView::Store(name) => {
                lemma_written_keeps_bottom(rest.scopes, name, unmarked(top(rest.values)));
            },
            FrameView::Invoke { call, args } => {
                match call {
                    ExprView::Call { function, args: _ } => {
                        if rest.functions.contains_key(function) {
                            lemma_bound_keeps_bottom(
                                pushed(rest.scopes, true),
                                rest.functions[function].args,
                                expanded(args, rest.arrays),
                                0,
                            );
                        }
                    },
                    _ => {},
                }
            },
            _ => {},
        }
    }
}

/// No step changes the program: the source text, the statement list, the
/// function table and the parser's mark stay as they are.
pub proof fn step_leaves_the_program_alone(s: CtxView, event: EventView)
    ensures
        step(s, event).0.contents == s.contents,
        step(s, event).0.statements == s.statements,
        step(s, event).0.functions == s.functions,
        step(s, event).0.parsing_function == s.parsing_function,
{
    let ready = informed(s, event);
    if ready.work.len() > 0 {
        let rest = CtxView { work: ready.work.drop_last(), ..ready };
        match ready.work.last() {
            FrameView::Invoke { call, args } => {
                match call {
                    ExprView::Call { function, args: _ } => {
                        lemma_invoked_leaves_the_program_alone(rest, function, args);
                    },
                    _ => {},
                }
            },
            _ => {},
        }
    }
}

proof fn lemma_invoked_leaves_the_program_alone(s: CtxView, name: Seq<char>, args: Seq<ValueView>)
    ensures
        invoked(s, name, args) matches Ok(after) ==> {
            &&& after.contents == s.contents
            &&& after.statements == s.statements
            &&& after.functions == s.functions
            &&& after.parsing_function == s.parsing_function
        },
{
}

proof fn lemma_bound_keeps(
    scopes: Seq<ScopeView>,
    names: Seq<Seq<char>>,
    args: Seq<ValueView>,
    from: nat,
    key: Seq<char>,
)
    requires
        scopes.len() > 0,
        scopes.last().variables.contains_key(key),
        forall|j: int| from <= j < names.len() && j < args.len() ==> names[j] != key,
    ensures
        bound(scopes, names, args, from).len() == scopes.len(),
        bound(scopes, names, args, from).last().variables.contains_key(key),
        bound(scopes, names, args, from).last().variables[key] == scopes.last().variables[key],
    decreases names.len() - from,
{
    if from >= names.len() || from >= args.len() {
    } else {
        lemma_bound_keeps(
            written_here(scopes, names[from as int], unmarked(args[from as int])),
            names,
            args,
            from + 1,
            key,
        );
    }
}

proof fn lemma_bound_binds(
    scopes: Seq<ScopeView>,
    names: Seq<Seq<char>>,
    args: Seq<ValueView>,
    from: nat,
    i: int,
)
    requires
        scopes.len() > 0,
        from <= i < names.len(),
        i < args.len(),
        forall|j: int| i < j < names.len() && j < args.len() ==> names[j] != names[i],
    ensures
        bound(scopes, names, args, from).len() == scopes.len(),
        bound(scopes, names, args, from).last().variables.contains_key(names[i]),
        bound(scopes, names, args, from).last().variables[names[i]] == unmarked(args[i]),
    decreases names.len() - from,
{
    let next = written_here(scopes, names[from as int], unmarked(args[from as int]));
    if from == i {
        lemma_bound_keeps(next, names, args, from + 1, names[i]);
    } else {
        lemma_bound_binds(next, names, args, from + 1, i);
    }
}

/// The call protocol binds the parameters in order and keeps the rest:
/// after a call is entered, parameter `i` reads as argument `i` (where a
/// parameter's name occurs twice, the later one has it), and the
/// arguments beyond the parameters are the pending arguments.
pub proof fn call_binds_parameters(s: CtxView, name: Seq<char>, raw_args: Seq<ValueView>, i: int)
    requires
        s.functions.contains_key(name),
        0 <= i < s.functions[name].args.len(),
        i < expanded(raw_args, s.arrays).len(),
        forall|j: int|
            i < j < s.functions[name].args.len() && j < expanded(raw_args, s.arrays).len()
                ==> s.functions[name].args[j] != s.functions[name].args[i],
    ensures
        read(entered(s, name, raw_args).scopes, s.functions[name].args[i]) == unmarked(
            expanded(raw_args, s.arrays)[i],
        ),
        entered(s, name, raw_args).args == if expanded(raw_args, s.arrays).len()
            > s.functions[name].args.len() {
            expanded(raw_args, s.arrays).skip(s.functions[name].args.len() as int)
        } else {
            Seq::empty()
        },
{
    let f = s.functions[name];
    let args = expanded(raw_args, s.arrays);
    lemma_bound_binds(pushed(s.scopes, true), f.args, args, 0, i);
}

} // verus!
