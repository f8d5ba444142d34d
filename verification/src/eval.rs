//! The evaluation engine: the steps of `semantics`, taken on the
//! interpreter's state.

use crate::builtins::{aka, count, eq, get, lt, render, repr};
use crate::ctx::{names_view, pushed, work_view, Ctx, CtxView, Frame, FrameView};
use crate::exprs::{
    block_view, lemma_block_view, node_view, CallExpr, ConditionalExpr, Expression, NumberExpr,
};
use crate::host::{Action, ActionView, Event, Operator, Query, QueryView};
use crate::lex::Token;
use crate::semantics::{
    advanced_loop, all_unmarked, allocated, bound, collected, continued, driven, dropped, entered,
    evaluated, expanded, informed, invoked, marked, operated, operator_of, payload, performed,
    popped_off, printed, pulled_off, pushed_onto, returned, second, spliced, step, stored, tested,
    top, with_items, with_step, with_value,
};
use crate::table::find;
use crate::value::{array_items, store_view, unmarked, values_view, ArrayExpr, Value, ValueView};
use vstd::prelude::*;
use vstd::string::*;

verus! {

/// A copy of a list of values, item by item.
pub fn clone_values(list: &Vec<Value>) -> (copy: Vec<Value>)
    ensures
        values_view(copy@) == values_view(list@),
{
    let mut copy: Vec<Value> = Vec::new();
    let mut i: usize = 0;
    while i < list.len()
        invariant
            i <= list@.len(),
            copy@.len() == i,
            forall|k: int| 0 <= k < i ==> (#[trigger] copy@[k])@ == list@[k]@,
        decreases list@.len() - i,
    {
        copy.push(list[i].clone());
        i += 1;
    }
    assert(values_view(copy@) =~= values_view(list@));
    copy
}

/// A copy of a list of values without spread marks.
fn resolve_values(list: &Vec<Value>) -> (copy: Vec<Value>)
    ensures
        values_view(copy@) == all_unmarked(values_view(list@)),
{
    let mut copy: Vec<Value> = Vec::new();
    let mut i: usize = 0;
    while i < list.len()
        invariant
            i <= list@.len(),
            copy@.len() == i,
            forall|k: int| 0 <= k < i ==> (#[trigger] copy@[k])@ == unmarked(list@[k]@),
        decreases list@.len() - i,
    {
        copy.push(list[i].clone().resolved());
        i += 1;
    }
    assert(values_view(copy@) =~= all_unmarked(values_view(list@)));
    copy
}

fn operator_for(token: &Token) -> (op: Option<Operator>)
    ensures
        op == operator_of(*token),
{
    match token {
        Token::Plus => Some(Operator::Plus),
        Token::Minus => Some(Operator::Minus),
        Token::Multiply => Some(Operator::Multiply),
        Token::Divide => Some(Operator::Divide),
        _ => None,
    }
}

impl<'a> Ctx<'a> {
    /// Puts a value on top of the value stack.
    pub fn push_value(&mut self, value: Value)
        ensures
            final(self)@ == with_value(old(self)@, value@),
    {
        self.values.push(value);
        assert(values_view(self.values@) =~= values_view(old(self).values@).push(value@));
    }

    /// Takes the value on top of the value stack; void where there is
    /// none.
    pub fn pop_value(&mut self) -> (value: Value)
        ensures
            value@ == top(old(self)@.values),
            final(self)@ == (CtxView { values: dropped(old(self)@.values, 1), ..old(self)@ }),
    {
        let value = match self.values.pop() {
            Some(v) => v,
            None => Value::Void,
        };
        assert(values_view(self.values@) =~= dropped(values_view(old(self).values@), 1));
        value
    }

    /// Puts a step on top of the steps to take.
    pub fn schedule(&mut self, frame: Frame<'a>)
        ensures
            final(self)@ == with_step(old(self)@, frame@),
    {
        self.work.push(frame);
        assert(work_view(self.work@) =~= work_view(old(self).work@).push(frame@));
    }

    /// Makes a new array of these items and hands out the handle to it.
    pub fn new_array(&mut self, items: Vec<Value>) -> (handle: Value)
        ensures
            (final(self)@, handle@) == allocated(old(self)@, values_view(items@)),
    {
        let id = self.arrays.len();
        let stored = resolve_values(&items);
        self.arrays.push(stored);
        assert(store_view(self.arrays@) =~= store_view(old(self).arrays@).push(
            all_unmarked(values_view(items@)),
        ));
        Value::Array(ArrayExpr { id, spread: false })
    }

    fn evaluate(&mut self, e: &'a Expression)
        ensures
            final(self)@ == evaluated(old(self)@, e@),
    {
        match e {
            Expression::Void(_) => self.push_value(Value::Void),
            Expression::Number(n) => self.push_value(Value::Number(n.value)),
            Expression::String(s) => self.push_value(Value::String(s.value.clone())),
            Expression::Variable(v) => {
                let value = self.get_variable(v.name.as_str());
                self.push_value(value);
            },
            Expression::Assign(a) => {
                self.schedule(Frame::Store(&a.variable));
                self.schedule(Frame::Eval(&*a.value));
            },
            Expression::Call(c) => {
                let base = self.values.len();
                self.schedule(Frame::Collect { call: c, next: 0, base });
            },
            Expression::Echo(p) => {
                self.schedule(Frame::Print { newline: p.newline });
                self.schedule(Frame::Eval(&*p.value));
            },
            Expression::Math(m) => {
                self.schedule(Frame::Operate { operator: m.operator });
                self.schedule(Frame::Eval(&*m.rhs));
                self.schedule(Frame::Eval(&*m.lhs));
            },
            Expression::Conditional(c) => {
                self.schedule(Frame::Test { node: c, first: true });
                self.schedule(Frame::Eval(&*c.condition));
            },
            Expression::Jump(j) => {
                self.jump = Some(j.address);
                self.push_value(Value::Void);
            },
            Expression::Spread(s) => {
                self.schedule(Frame::Mark);
                self.schedule(Frame::Eval(&*s.value));
            },
        }
    }

    fn store(&mut self, name: &String)
        ensures
            final(self)@ == stored(old(self)@, name@),
    {
        let value = self.pop_value();
        self.set_variable(name.clone(), value);
        self.push_value(Value::Void);
    }

    fn mark(&mut self)
        ensures
            final(self)@ == marked(old(self)@),
    {
        if self.values.len() == 0 {
            return;
        }
        let value = self.pop_value();
        match value {
            Value::Array(handle) => {
                self.push_value(Value::Array(ArrayExpr { id: handle.id, spread: true }));
            },
            other => {
                self.push_value(other);
                assert(self@.values =~= old(self)@.values);
            },
        }
    }

    fn drive(&mut self, next: usize)
        ensures
            final(self)@ == driven(old(self)@, next),
    {
        match self.statements {
            Some(list) => {
                proof {
                    lemma_block_view(list@);
                }
                if next < list.len() {
                    self.schedule(Frame::After { at: next });
                    self.schedule(Frame::Eval(&list[next]));
                }
            },
            None => {},
        }
    }

    fn advance_loop(&mut self, at: usize)
        ensures
            final(self)@ == advanced_loop(old(self)@, at),
    {
        self.pop_value();
        if self.threw {
            return;
        }
        match self.jump {
            Some(target) => {
                self.jump = None;
                self.schedule(Frame::Drive { next: target });
            },
            None => {
                if at < usize::MAX {
                    self.schedule(Frame::Drive { next: at + 1 });
                }
            },
        }
    }

    fn finish_call(&mut self, saved: Vec<Value>)
        ensures
            final(self)@ == returned(old(self)@, values_view(saved@)),
    {
        let result = if self.threw {
            self.catch()
        } else {
            Value::Void
        };
        self.args = saved;
        self.down();
        self.push_value(result);
    }
}

fn is_name(name: &String, literal: &str) -> (same: bool)
    ensures
        same == (name@ == literal@),
{
    *name == String::from_str(literal)
}

/// A copy of a list of names.
fn clone_names(list: &Vec<String>) -> (copy: Vec<String>)
    ensures
        names_view(copy@) == names_view(list@),
{
    let mut copy: Vec<String> = Vec::new();
    let mut i: usize = 0;
    while i < list.len()
        invariant
            i <= list@.len(),
            copy@.len() == i,
            forall|k: int| 0 <= k < i ==> (#[trigger] copy@[k])@ == list@[k]@,
        decreases list@.len() - i,
    {
        copy.push(list[i].clone());
        i += 1;
    }
    assert(names_view(copy@) =~= names_view(list@));
    copy
}

proof fn lemma_values_concat(a: Seq<Value>, b: Seq<Value>)
    ensures
        values_view(a + b) == values_view(a) + values_view(b),
{
    assert(values_view(a + b) =~= values_view(a) + values_view(b));
}

/// The argument list with every spread-marked array replaced by copies of
/// its items.
fn expand(raw_args: &Vec<Value>, arrays: &Vec<Vec<Value>>) -> (args: Vec<Value>)
    ensures
        values_view(args@) == expanded(values_view(raw_args@), store_view(arrays@)),
{
    let mut args: Vec<Value> = Vec::new();
    let mut i: usize = 0;
    assert(values_view(raw_args@).take(0) =~= Seq::<ValueView>::empty());
    assert(values_view(args@) =~= Seq::<ValueView>::empty());
    while i < raw_args.len()
        invariant
            i <= raw_args@.len(),
            values_view(args@) == expanded(
                values_view(raw_args@).take(i as int),
                store_view(arrays@),
            ),
        decreases raw_args@.len() - i,
    {
        let ghost before = values_view(args@);
        proof {
            assert(values_view(raw_args@).take(i + 1).drop_last() =~= values_view(raw_args@).take(
                i as int,
            ));
        }
        let mut whole = true;
        match &raw_args[i] {
            Value::Array(handle) => {
                if handle.spread {
                    whole = false;
                    match array_items(arrays, handle.id) {
                        Some(items) => {
                            let mut copy = clone_values(items);
                            proof {
                                lemma_values_concat(args@, copy@);
                            }
                            args.append(&mut copy);
                        },
                        None => {
                            assert(values_view(args@) =~= before + Seq::<ValueView>::empty());
                        },
                    }
                }
            },
            _ => {},
        }
        if whole {
            args.push(raw_args[i].clone());
            assert(values_view(args@) =~= before + seq![raw_args@[i as int]@]);
        }
        i += 1;
    }
    assert(values_view(raw_args@).take(i as int) =~= values_view(raw_args@));
    args
}

/// `push`; see [`pushed_onto`].
pub fn push(ctx: &mut Ctx, args: &Vec<Value>) -> (r: Value)
    ensures
        r@ == ValueView::Void,
        final(ctx)@ == pushed_onto(old(ctx)@, values_view(args@)),
{
    if args.len() == 0 {
        ctx.push_scope(false);
    } else if args.len() == 2 {
        match &args[0] {
            Value::Array(handle) => {
                let id = handle.id;
                if id < ctx.arrays.len() {
                    let item = args[1].clone().resolved();
                    let ghost before = ctx.arrays@[id as int]@;
                    ctx.arrays[id].push(item);
                    assert(values_view(ctx.arrays@[id as int]@) =~= values_view(before).push(
                        item@,
                    ));
                    assert(store_view(ctx.arrays@) =~= with_items(
                        store_view(old(ctx).arrays@),
                        id,
                        values_view(before).push(item@),
                    ));
                }
            },
            _ => {},
        }
    }
    Value::Void
}

/// `pop`; see [`popped_off`].
pub fn pop(ctx: &mut Ctx, args: &Vec<Value>) -> (r: Value)
    ensures
        with_value(final(ctx)@, r@) == popped_off(old(ctx)@, values_view(args@)),
{
    if args.len() == 0 {
        ctx.pop_scope();
        return Value::Void;
    }
    if args.len() == 1 {
        match &args[0] {
            Value::Array(handle) => {
                let id = handle.id;
                if id < ctx.arrays.len() {
                    let ghost before = ctx.arrays@[id as int]@;
                    match ctx.arrays[id].pop() {
                        Some(item) => {
                            assert(values_view(ctx.arrays@[id as int]@) =~= values_view(
                                before,
                            ).drop_last());
                            assert(item@ == values_view(before).last());
                            assert(store_view(ctx.arrays@) =~= with_items(
                                store_view(old(ctx).arrays@),
                                id,
                                values_view(before).drop_last(),
                            ));
                            return item;
                        },
                        None => {
                            assert(store_view(ctx.arrays@) =~= store_view(old(ctx).arrays@));
                        },
                    }
                }
            },
            _ => {},
        }
    }
    Value::Void
}

/// `pull`; see [`pulled_off`].
pub fn pull(ctx: &mut Ctx, args: &Vec<Value>) -> (r: Value)
    ensures
        with_value(final(ctx)@, r@) == pulled_off(old(ctx)@, values_view(args@)),
{
    if args.len() == 1 {
        match &args[0] {
            Value::Array(handle) => {
                let id = handle.id;
                if id < ctx.arrays.len() {
                    if ctx.arrays[id].len() > 0 {
                        let ghost before = ctx.arrays@[id as int]@;
                        let item = ctx.arrays[id].remove(0);
                        assert(values_view(ctx.arrays@[id as int]@) =~= values_view(
                            before,
                        ).drop_first());
                        assert(store_view(ctx.arrays@) =~= with_items(
                            store_view(old(ctx).arrays@),
                            id,
                            values_view(before).drop_first(),
                        ));
                        return item;
                    }
                }
            },
            _ => {},
        }
    }
    Value::Void
}

/// `up`: enters a call's scope by hand.
pub fn up(ctx: &mut Ctx) -> (r: Value)
    ensures
        r@ == ValueView::Void,
        final(ctx)@ == (CtxView { scopes: pushed(old(ctx)@.scopes, true), ..old(ctx)@ }),
{
    ctx.up();
    Value::Void
}

/// `down`: leaves a call's scope by hand.
pub fn down(ctx: &mut Ctx) -> (r: Value)
    ensures
        r@ == ValueView::Void,
        final(ctx)@ == (CtxView {
            scopes: crate::ctx::left_call(old(ctx)@.scopes),
            ..old(ctx)@
        }),
{
    ctx.down();
    Value::Void
}

/// `throw`: raises its argument, void for none, a new array of them for
/// several; itself it yields void.
pub fn throw(ctx: &mut Ctx, args: Vec<Value>) -> (r: Value)
    ensures
        r@ == ValueView::Void,
        final(ctx)@ == (CtxView {
            threw: true,
            thrown: unmarked(payload(old(ctx)@, values_view(args@)).1),
            ..payload(old(ctx)@, values_view(args@)).0
        }),
{
    let mut args = args;
    let value = if args.len() == 1 {
        match args.pop() {
            Some(v) => v,
            None => Value::Void,
        }
    } else if args.len() == 0 {
        Value::Void
    } else {
        ctx.new_array(args)
    };
    ctx.throw(value);
    Value::Void
}

/// `args`: the pending arguments as a new array; none are pending
/// afterwards.
pub fn args_impl(ctx: &mut Ctx) -> (r: Value)
    ensures
        final(ctx)@ == (CtxView { args: Seq::empty(), ..allocated(old(ctx)@, old(ctx)@.args).0 }),
        r@ == allocated(old(ctx)@, old(ctx)@.args).1,
{
    let mut pending: Vec<Value> = Vec::new();
    std::mem::swap(&mut ctx.args, &mut pending);
    assert(values_view(ctx.args@) =~= Seq::<ValueView>::empty());
    ctx.new_array(pending)
}

impl<'a> Ctx<'a> {
    /// Starts a call of the user function `name`; see [`entered`].
    pub fn run_function(&mut self, name: &str, raw_args: Vec<Value>)
        ensures
            final(self)@ == entered(old(self)@, name@, values_view(raw_args@)),
    {
        let key = String::from_str(name);
        let (address, formals) = match find(&self.functions, &key) {
            Some(i) => (self.functions[i].1.address, clone_names(&self.functions[i].1.args)),
            None => {
                self.push_value(Value::Void);
                return;
            },
        };
        let mut args = expand(&raw_args, &self.arrays);
        let ghost all = values_view(args@);
        self.up();
        let mut i: usize = 0;
        while i < formals.len() && i < args.len()
            invariant
                i <= formals@.len(),
                i <= args@.len(),
                all == values_view(args@),
                self@ == (CtxView { scopes: self@.scopes, ..old(self)@ }),
                bound(pushed(old(self)@.scopes, true), names_view(formals@), all, 0) == bound(
                    self@.scopes,
                    names_view(formals@),
                    all,
                    i as nat,
                ),
            decreases formals@.len() - i,
        {
            self.set_variable_here(formals[i].clone(), args[i].clone());
            i += 1;
        }
        let mut pending = if args.len() > formals.len() {
            let rest = args.split_off(formals.len());
            assert(values_view(rest@) =~= all.skip(formals@.len() as int));
            rest
        } else {
            let none: Vec<Value> = Vec::new();
            assert(values_view(none@) =~= Seq::<ValueView>::empty());
            none
        };
        std::mem::swap(&mut self.args, &mut pending);
        self.schedule(Frame::Return { saved: pending });
        self.schedule(Frame::Drive { next: address });
    }

    fn splice(&mut self)
        ensures
            final(self)@ == (CtxView { values: spliced(old(self)@), ..old(self)@ }),
    {
        let len = self.values.len();
        if len == 0 {
            return;
        }
        let id = match &self.values[len - 1] {
            Value::Array(handle) => {
                if handle.spread {
                    handle.id
                } else {
                    return;
                }
            },
            _ => {
                return;
            },
        };
        self.values.pop();
        let ghost rest = values_view(self.values@);
        assert(rest =~= dropped(old(self)@.values, 1));
        match array_items(&self.arrays, id) {
            Some(items) => {
                let mut copy = clone_values(items);
                proof {
                    lemma_values_concat(self.values@, copy@);
                }
                self.values.append(&mut copy);
            },
            None => {
                assert(rest =~= rest + Seq::<ValueView>::empty());
            },
        }
    }

    fn collect(&mut self, call: &'a CallExpr, next: usize, base: usize)
        ensures
            final(self)@ == collected(old(self)@, node_view(Expression::Call(*call)), next, base),
    {
        proof {
            lemma_block_view(call.args@);
        }
        if next > 0 {
            self.splice();
        }
        if next < call.args.len() {
            self.schedule(Frame::Collect { call, next: next + 1, base });
            self.schedule(Frame::Eval(&call.args[next]));
        } else if base <= self.values.len() {
            let ghost before = values_view(self.values@);
            let args = self.values.split_off(base);
            assert(values_view(self.values@) =~= before.take(base as int));
            assert(values_view(args@) =~= before.skip(base as int));
            self.schedule(Frame::Invoke { call, args });
        } else {
            let args: Vec<Value> = Vec::new();
            assert(values_view(args@) =~= Seq::<ValueView>::empty());
            self.schedule(Frame::Invoke { call, args });
        }
    }

    fn invoke(&mut self, function: &String, args: &Vec<Value>) -> (r: Result<(), Query>)
        ensures
            match r {
                Ok(_) => invoked(old(self)@, function@, values_view(args@)) == Ok::<
                    CtxView,
                    QueryView,
                >(final(self)@),
                Err(q) => invoked(old(self)@, function@, values_view(args@)) == Err::<
                    CtxView,
                    QueryView,
                >(q@) && final(self)@ == old(self)@,
            },
    {
        let result = if is_name(function, "repr") {
            repr(args)
        } else if is_name(function, "readline") {
            match self.memo.text(Query::ReadLine) {
                Ok(line) => Value::String(line),
                Err(q) => return Err(q),
            }
        } else if is_name(function, "eq") {
            match eq(args, &self.arrays, &self.memo) {
                Ok(v) => v,
                Err(q) => return Err(q),
            }
        } else if is_name(function, "lt") {
            match lt(args, &self.arrays, &self.memo) {
                Ok(v) => v,
                Err(q) => return Err(q),
            }
        } else if is_name(function, "push") {
            push(self, args)
        } else if is_name(function, "pop") {
            pop(self, args)
        } else if is_name(function, "pull") {
            pull(self, args)
        } else if is_name(function, "up") {
            up(self)
        } else if is_name(function, "down") {
            down(self)
        } else if is_name(function, "arr") {
            self.new_array(clone_values(args))
        } else if is_name(function, "aka") {
            aka(args)
        } else if is_name(function, "throw") {
            throw(self, clone_values(args))
        } else if is_name(function, "args") {
            args_impl(self)
        } else if is_name(function, "get") {
            match get(args, &self.arrays, &self.memo) {
                Ok(v) => v,
                Err(q) => return Err(q),
            }
        } else if is_name(function, "count") {
            match count(args, &self.arrays, &self.memo) {
                Ok(v) => v,
                Err(q) => return Err(q),
            }
        } else {
            self.run_function(function.as_str(), clone_values(args));
            return Ok(());
        };
        self.push_value(result);
        Ok(())
    }

    /// A copy of the value on top of the value stack.
    fn top_value(&self) -> (value: Value)
        ensures
            value@ == top(self@.values),
    {
        let len = self.values.len();
        if len > 0 {
            self.values[len - 1].clone()
        } else {
            Value::Void
        }
    }

    /// A copy of the value below the top of the value stack.
    fn second_value(&self) -> (value: Value)
        ensures
            value@ == second(self@.values),
    {
        let len = self.values.len();
        if len > 1 {
            self.values[len - 2].clone()
        } else {
            Value::Void
        }
    }

    /// Takes the two topmost values off the value stack.
    fn pop_two(&mut self)
        ensures
            final(self)@ == (CtxView { values: dropped(old(self)@.values, 2), ..old(self)@ }),
    {
        self.values.pop();
        self.values.pop();
        assert(values_view(self.values@) =~= dropped(values_view(old(self).values@), 2));
    }

    fn print(&mut self, newline: bool) -> (r: Result<Action, Query>)
        ensures
            match r {
                Ok(action) => printed(old(self)@, newline) == Ok::<
                    (CtxView, ActionView),
                    QueryView,
                >((final(self)@, action@)),
                Err(q) => printed(old(self)@, newline) == Err::<(CtxView, ActionView), QueryView>(
                    q@,
                ) && final(self)@ == old(self)@,
            },
    {
        let value = self.top_value();
        match render(&value, &self.arrays, &self.memo) {
            Ok(text) => {
                self.pop_value();
                self.push_value(Value::Void);
                Ok(Action::Echo { text, newline })
            },
            Err(q) => Err(q),
        }
    }

    fn operate(&mut self, operator: &Token) -> (r: Result<(), Query>)
        ensures
            match r {
                Ok(_) => operated(old(self)@, *operator) == Ok::<CtxView, QueryView>(final(self)@),
                Err(q) => operated(old(self)@, *operator) == Err::<CtxView, QueryView>(q@)
                    && final(self)@ == old(self)@,
            },
    {
        let result = match operator_for(operator) {
            None => Value::Void,
            Some(op) => {
                let right = self.top_value();
                let left = self.second_value();
                match left.apply(op, &right, &self.arrays, &self.memo) {
                    Ok(v) => v,
                    Err(q) => return Err(q),
                }
            },
        };
        self.pop_two();
        self.push_value(result);
        Ok(())
    }

    fn test(&mut self, node: &'a ConditionalExpr, first: bool) -> (r: Result<(), Query>)
        ensures
            match r {
                Ok(_) => tested(old(self)@, node_view(Expression::Conditional(*node)), first)
                    == Ok::<CtxView, QueryView>(final(self)@),
                Err(q) => tested(old(self)@, node_view(Expression::Conditional(*node)), first)
                    == Err::<CtxView, QueryView>(q@) && final(self)@ == old(self)@,
            },
    {
        let value = self.top_value();
        let truth = match NumberExpr::is_true(&value, &self.arrays, &self.memo) {
            Ok(truth) => truth,
            Err(q) => return Err(q),
        };
        self.pop_value();
        self.push_scope(false);
        self.schedule(Frame::Block { node, truth, first, next: 0 });
        Ok(())
    }

    fn continue_block(&mut self, node: &'a ConditionalExpr, truth: bool, first: bool, next: usize)
        ensures
            final(self)@ == continued(
                old(self)@,
                node_view(Expression::Conditional(*node)),
                truth,
                first,
                next,
            ),
    {
        proof {
            lemma_block_view(node.when_true@);
            lemma_block_view(node.when_false@);
        }
        if next > 0 {
            self.pop_value();
        }
        let none: Vec<Expression> = Vec::new();
        proof {
            lemma_block_view(none@);
        }
        let more = if truth {
            next < node.when_true.len()
        } else if first {
            next < node.when_false.len()
        } else {
            false
        };
        if more {
            self.schedule(Frame::Block { node, truth, first, next: next + 1 });
            if truth {
                self.schedule(Frame::Eval(&node.when_true[next]));
            } else {
                self.schedule(Frame::Eval(&node.when_false[next]));
            }
        } else {
            self.pop_scope();
            if node.is_while && truth {
                self.schedule(Frame::Test { node, first: false });
                self.schedule(Frame::Eval(&*node.condition));
            } else {
                self.push_value(Value::Void);
            }
        }
    }

    /// Does one step that was taken off the stack.  Where the step needs
    /// an answer of the host first, it comes back with the query and
    /// nothing has changed.
    fn perform(&mut self, frame: Frame<'a>) -> (r: Result<Action, (Query, Frame<'a>)>)
        ensures
            match r {
                Ok(action) => performed(old(self)@, frame@) == Ok::<
                    (CtxView, ActionView),
                    QueryView,
                >((final(self)@, action@)),
                Err((q, back)) => performed(old(self)@, frame@) == Err::<
                    (CtxView, ActionView),
                    QueryView,
                >(q@) && final(self)@ == old(self)@ && back@ == frame@,
            },
    {
        match frame {
            Frame::Eval(e) => {
                self.evaluate(e);
                Ok(Action::Continue)
            },
            Frame::Store(name) => {
                self.store(name);
                Ok(Action::Continue)
            },
            Frame::Collect { call, next, base } => {
                self.collect(call, next, base);
                Ok(Action::Continue)
            },
            Frame::Invoke { call, args } => match self.invoke(&call.function, &args) {
                Ok(_) => Ok(Action::Continue),
                Err(q) => Err((q, Frame::Invoke { call, args })),
            },
            Frame::Print { newline } => match self.print(newline) {
                Ok(action) => Ok(action),
                Err(q) => Err((q, Frame::Print { newline })),
            },
            Frame::Operate { operator } => match self.operate(&operator) {
                Ok(_) => Ok(Action::Continue),
                Err(q) => Err((q, Frame::Operate { operator })),
            },
            Frame::Test { node, first } => match self.test(node, first) {
                Ok(_) => Ok(Action::Continue),
                Err(q) => Err((q, Frame::Test { node, first })),
            },
            Frame::Block { node, truth, first, next } => {
                self.continue_block(node, truth, first, next);
                Ok(Action::Continue)
            },
            Frame::Mark => {
                self.mark();
                Ok(Action::Continue)
            },
            Frame::Drive { next } => {
                self.drive(next);
                Ok(Action::Continue)
            },
            Frame::After { at } => {
                self.advance_loop(at);
                Ok(Action::Continue)
            },
            Frame::Return { saved } => {
                self.finish_call(saved);
                Ok(Action::Continue)
            },
        }
    }

    /// Takes in the host's event: an answer to the open query is recorded.
    fn inform(&mut self, event: Event)
        ensures
            final(self)@ == informed(old(self)@, event@),
    {
        let mut asked: Option<Query> = None;
        std::mem::swap(&mut self.asked, &mut asked);
        match (asked, event) {
            (Some(query), Event::Answer(answer)) => {
                self.memo.record(query, answer);
            },
            _ => {},
        }
    }

    /// Sets the engine to run `statements` from the first one on.
    pub fn run(&mut self, statements: &'a Vec<Expression>)
        ensures
            final(self)@ == (CtxView {
                statements: Some(block_view(statements@)),
                work: old(self)@.work.push(FrameView::Drive { next: 0 }),
                ..old(self)@
            }),
    {
        self.statements = Some(statements);
        self.schedule(Frame::Drive { next: 0 });
    }

    /// Takes one step; see [`step`].
    pub fn step(&mut self, event: Event) -> (action: Action)
        ensures
            (final(self)@, action@) == step(old(self)@, event@),
    {
        self.inform(event);
        let ghost ready = self@;
        let frame = match self.work.pop() {
            Some(frame) => frame,
            None => {
                return Action::Finished;
            },
        };
        assert(work_view(self.work@) =~= ready.work.drop_last());
        assert(frame@ == ready.work.last());
        match self.perform(frame) {
            Ok(action) => {
                self.memo.clear();
                action
            },
            Err((query, frame)) => {
                self.work.push(frame);
                assert(ready.work.len() > 0);
                assert(ready.work.drop_last().push(ready.work.last()) =~= ready.work);
                assert(work_view(self.work@) =~= ready.work.drop_last().push(ready.work.last()));
                let action = Action::Ask(query.clone());
                self.asked = Some(query);
                action
            },
        }
    }

    /// Takes steps until one wants something of the host, the run is over,
    /// or `fuel` steps are taken; in the last case the action is
    /// `Continue`.
    pub fn resume(&mut self, event: Event, fuel: u64) -> (action: Action)
        ensures
            (final(self)@, action@) == resumed(old(self)@, event@, fuel as nat),
    {
        let mut action = self.step(event);
        let mut left: u64 = fuel;
        while left > 0 && is_continue(&action)
            invariant
                resumed(old(self)@, event@, fuel as nat) == after_step(
                    (self@, action@),
                    left as nat,
                ),
            decreases left,
        {
            action = self.step(Event::Resume);
            left -= 1;
        }
        action
    }
}

fn is_continue(action: &Action) -> (yes: bool)
    ensures
        yes == (action@ is Continue),
{
    match action {
        Action::Continue => true,
        _ => false,
    }
}

/// The state and action after a step and up to `fuel` further steps, taken
/// as long as the action is `Continue`.
pub open spec fn resumed(s: CtxView, event: crate::host::EventView, fuel: nat) -> (
    CtxView,
    ActionView,
) {
    after_step(step(s, event), fuel)
}

/// Going on from the outcome of a step for up to `fuel` steps.
pub open spec fn after_step(outcome: (CtxView, ActionView), fuel: nat) -> (CtxView, ActionView)
    decreases fuel,
{
    if fuel > 0 && outcome.1 is Continue {
        after_step(step(outcome.0, crate::host::EventView::Resume), (fuel - 1) as nat)
    } else {
        outcome
    }
}

} // verus!
