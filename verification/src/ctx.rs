//! The interpreter's state: the scope stack, the function table, the array
//! store and the bookkeeping of a run.

use crate::exprs::{block_view, node_view, CallExpr, ConditionalExpr, ExprView, Expression};
use crate::host::{ExchangeView, Memo, Query, QueryView};
use crate::lex::Token;
use crate::table::{find, put, table};
use crate::value::{store_view, unmarked, values_view, Value, ValueView};
use vstd::prelude::*;
use vstd::string::*;

verus! {

/// A user-defined function: where its body starts in the statement list,
/// and the names of its parameters.
#[derive(Debug, PartialEq)]
pub struct Function {
    pub address: usize,
    pub args: Vec<String>,
}

pub struct FunctionView {
    pub address: usize,
    pub args: Seq<Seq<char>>,
}

/// The views of a list of names.
pub open spec fn names_view(names: Seq<String>) -> Seq<Seq<char>> {
    Seq::new(names.len(), |i: int| names[i]@)
}

impl View for Function {
    type V = FunctionView;

    open spec fn view(&self) -> FunctionView {
        FunctionView { address: self.address, args: names_view(self.args@) }
    }
}

/// One frame of the scope stack.  Name resolution passes through a soft
/// frame and stops at a hard one.
#[derive(Debug, PartialEq)]
pub struct Scope {
    pub variables: Vec<(String, Value)>,
    pub is_hard: bool,
}

pub struct ScopeView {
    pub variables: Map<Seq<char>, ValueView>,
    pub is_hard: bool,
}

impl View for Scope {
    type V = ScopeView;

    open spec fn view(&self) -> ScopeView {
        ScopeView { variables: table(self.variables@), is_hard: self.is_hard }
    }
}

impl Scope {
    pub fn new(is_hard: bool) -> (scope: Scope)
        ensures
            scope@ == (ScopeView { variables: Map::empty(), is_hard }),
    {
        Scope { variables: Vec::new(), is_hard }
    }
}

/// The views of the frames of a scope stack, bottom first.
pub open spec fn scopes_view(scopes: Seq<Scope>) -> Seq<ScopeView> {
    Seq::new(scopes.len(), |i: int| scopes[i]@)
}

/// A scope stack is well formed when it has a bottom frame and that frame
/// is hard.
pub open spec fn well_formed(scopes: Seq<ScopeView>) -> bool {
    scopes.len() >= 1 && scopes[0].is_hard
}

/// The frame that holds `name` for a reader at frame `from`: the nearest
/// frame at or below `from` that binds the name, looking no further than
/// the first hard frame.
pub open spec fn holder(scopes: Seq<ScopeView>, name: Seq<char>, from: int) -> Option<int>
    decreases from + 1,
{
    if from < 0 || from >= scopes.len() {
        None
    } else if scopes[from].variables.contains_key(name) {
        Some(from)
    } else if scopes[from].is_hard {
        None
    } else {
        holder(scopes, name, from - 1)
    }
}

/// What a read of `name` yields: the value in the frame that holds it, void
/// where no frame does.
pub open spec fn read(scopes: Seq<ScopeView>, name: Seq<char>) -> ValueView {
    match holder(scopes, name, scopes.len() - 1) {
        Some(i) => scopes[i].variables[name],
        None => ValueView::Void,
    }
}

/// The stack with `name` bound to `v` in frame `i`.
pub open spec fn bound_at(scopes: Seq<ScopeView>, i: int, name: Seq<char>, v: ValueView) -> Seq<
    ScopeView,
> {
    scopes.update(
        i,
        ScopeView { variables: scopes[i].variables.insert(name, v), is_hard: scopes[i].is_hard },
    )
}

/// The stack after `name` is bound in the topmost frame.
pub open spec fn written_here(scopes: Seq<ScopeView>, name: Seq<char>, v: ValueView) -> Seq<
    ScopeView,
> {
    if scopes.len() == 0 {
        scopes
    } else {
        bound_at(scopes, scopes.len() - 1, name, v)
    }
}

/// The stack after a write of `name`: the frame that holds the name gets
/// the new value; where none holds it, the topmost frame binds it.
pub open spec fn written(scopes: Seq<ScopeView>, name: Seq<char>, v: ValueView) -> Seq<ScopeView> {
    match holder(scopes, name, scopes.len() - 1) {
        Some(i) => bound_at(scopes, i, name, v),
        None => written_here(scopes, name, v),
    }
}

/// The stack with a new empty frame on top.
pub open spec fn pushed(scopes: Seq<ScopeView>, is_hard: bool) -> Seq<ScopeView> {
    scopes.push(ScopeView { variables: Map::empty(), is_hard })
}

/// The stack without its topmost frame; the bottom frame stays.
pub open spec fn popped(scopes: Seq<ScopeView>) -> Seq<ScopeView> {
    if scopes.len() > 1 {
        scopes.drop_last()
    } else {
        scopes
    }
}

/// The stack without the soft frames on its top.
pub open spec fn without_soft_top(scopes: Seq<ScopeView>) -> Seq<ScopeView>
    decreases scopes.len(),
{
    if scopes.len() > 1 && !scopes.last().is_hard {
        without_soft_top(scopes.drop_last())
    } else {
        scopes
    }
}

/// The stack after a call returns: the soft frames on top are gone, and
/// with them the hard frame of the call, unless it is the bottom frame.
pub open spec fn left_call(scopes: Seq<ScopeView>) -> Seq<ScopeView> {
    let rest = without_soft_top(scopes);
    if rest.len() > 1 && rest.last().is_hard {
        rest.drop_last()
    } else {
        rest
    }
}

/// A step that the evaluation engine has still to take.
pub enum Frame<'a> {
    /// Evaluate the node and put its value on the value stack.
    Eval(&'a Expression),
    /// Bind the name to the value on top of the stack.
    Store(&'a String),
    /// Evaluate the arguments of a call from `next` on; the values above
    /// `base` are the arguments so far.
    Collect { call: &'a CallExpr, next: usize, base: usize },
    /// Call the function with these arguments.
    Invoke { call: &'a CallExpr, args: Vec<Value> },
    /// Print the value on top of the stack.
    Print { newline: bool },
    /// Apply the operator to the two values on top of the stack.
    Operate { operator: Token },
    /// Choose a branch by the value on top of the stack.
    Test { node: &'a ConditionalExpr, first: bool },
    /// Go on with statement `next` of the chosen branch.
    Block { node: &'a ConditionalExpr, truth: bool, first: bool, next: usize },
    /// Mark the array on top of the stack for spreading.
    Mark,
    /// The driving loop before statement `next`.
    Drive { next: usize },
    /// The driving loop behind statement `at`.
    After { at: usize },
    /// Hand back a call's result and restore the caller's pending
    /// arguments.
    Return { saved: Vec<Value> },
}

pub enum FrameView {
    Eval(ExprView),
    Store(Seq<char>),
    Collect { call: ExprView, next: usize, base: usize },
    Invoke { call: ExprView, args: Seq<ValueView> },
    Print { newline: bool },
    Operate { operator: Token },
    Test { node: ExprView, first: bool },
    Block { node: ExprView, truth: bool, first: bool, next: usize },
    Mark,
    Drive { next: usize },
    After { at: usize },
    Return { saved: Seq<ValueView> },
}

impl<'a> View for Frame<'a> {
    type V = FrameView;

    open spec fn view(&self) -> FrameView {
        match self {
            Frame::Eval(e) => FrameView::Eval(node_view(**e)),
            Frame::Store(name) => FrameView::Store(name@),
            Frame::Collect { call, next, base } => FrameView::Collect {
                call: node_view(Expression::Call(**call)),
                next: *next,
                base: *base,
            },
            Frame::Invoke { call, args } => FrameView::Invoke {
                call: node_view(Expression::Call(**call)),
                args: values_view(args@),
            },
            Frame::Print { newline } => FrameView::Print { newline: *newline },
            Frame::Operate { operator } => FrameView::Operate { operator: *operator },
            Frame::Test { node, first } => FrameView::Test {
                node: node_view(Expression::Conditional(**node)),
                first: *first,
            },
            Frame::Block { node, truth, first, next } => FrameView::Block {
                node: node_view(Expression::Conditional(**node)),
                truth: *truth,
                first: *first,
                next: *next,
            },
            Frame::Mark => FrameView::Mark,
            Frame::Drive { next } => FrameView::Drive { next: *next },
            Frame::After { at } => FrameView::After { at: *at },
            Frame::Return { saved } => FrameView::Return { saved: values_view(saved@) },
        }
    }
}

/// The views of a stack of frames, bottom first.
pub open spec fn work_view(work: Seq<Frame>) -> Seq<FrameView> {
    Seq::new(work.len(), |i: int| work[i]@)
}

/// The whole state of an interpreter.
pub struct Ctx<'a> {
    /// The source text.
    pub contents: &'a str,
    pub scopes: Vec<Scope>,
    pub functions: Vec<(String, Function)>,
    /// The statement list that is run.
    pub statements: Option<&'a Vec<Expression>>,
    /// Whether a value was thrown and not yet caught.
    pub threw: bool,
    pub thrown: Value,
    /// The arguments of the running call beyond its parameters.
    pub args: Vec<Value>,
    /// The place of the header of the function whose body is being parsed.
    pub parsing_function: Option<usize>,
    /// Where the driving loop goes next, if not to the next statement.
    pub jump: Option<usize>,
    /// The storage of every array, by identity.
    pub arrays: Vec<Vec<Value>>,
    /// The steps still to take, the next one last.
    pub work: Vec<Frame<'a>>,
    /// The values that those steps work on.
    pub values: Vec<Value>,
    /// The host's answers to the step in progress.
    pub memo: Memo,
    /// The query that the host was last asked.
    pub asked: Option<Query>,
}

pub struct CtxView {
    pub contents: Seq<char>,
    pub scopes: Seq<ScopeView>,
    pub functions: Map<Seq<char>, FunctionView>,
    pub statements: Option<Seq<ExprView>>,
    pub threw: bool,
    pub thrown: ValueView,
    pub args: Seq<ValueView>,
    pub parsing_function: Option<usize>,
    pub jump: Option<usize>,
    pub arrays: Seq<Seq<ValueView>>,
    pub work: Seq<FrameView>,
    pub values: Seq<ValueView>,
    pub memo: Seq<ExchangeView>,
    pub asked: Option<QueryView>,
}

impl<'a> View for Ctx<'a> {
    type V = CtxView;

    open spec fn view(&self) -> CtxView {
        CtxView {
            contents: self.contents@,
            scopes: scopes_view(self.scopes@),
            functions: table(self.functions@),
            statements: match self.statements {
                Some(list) => Some(block_view(list@)),
                None => None,
            },
            threw: self.threw,
            thrown: self.thrown@,
            args: values_view(self.args@),
            parsing_function: self.parsing_function,
            jump: self.jump,
            arrays: store_view(self.arrays@),
            work: work_view(self.work@),
            values: values_view(self.values@),
            memo: self.memo@,
            asked: match self.asked {
                Some(q) => Some(q@),
                None => None,
            },
        }
    }
}

/// The place of the frame that holds `name`; see [`holder`].
fn locate(scopes: &Vec<Scope>, name: &String) -> (found: Option<(usize, usize)>)
    ensures
        match found {
            Some((frame, entry)) => {
                &&& holder(scopes_view(scopes@), name@, scopes@.len() - 1) == Some(frame as int)
                &&& frame < scopes@.len()
                &&& entry < scopes@[frame as int].variables@.len()
                &&& scopes@[frame as int].variables@[entry as int].0@ == name@
                &&& scopes@[frame as int].variables@[entry as int].1@ == table(
                    scopes@[frame as int].variables@,
                )[name@]
                &&& forall|j: int|
                    entry < j < scopes@[frame as int].variables@.len() ==> (
                    #[trigger] scopes@[frame as int].variables@[j]).0@ != name@
            },
            None => holder(scopes_view(scopes@), name@, scopes@.len() - 1) is None,
        },
{
    let mut i: usize = scopes.len();
    while i > 0
        invariant
            i <= scopes@.len(),
            holder(scopes_view(scopes@), name@, scopes@.len() - 1) == holder(
                scopes_view(scopes@),
                name@,
                i - 1,
            ),
        decreases i,
    {
        i -= 1;
        match find(&scopes[i].variables, name) {
            Some(entry) => {
                return Some((i, entry));
            },
            None => {},
        }
        if scopes[i].is_hard {
            return None;
        }
    }
    None
}

impl<'a> Ctx<'a> {
    /// A fresh interpreter for the program text `contents`: one hard scope
    /// frame, no functions, no arrays, nothing thrown, nothing to do.
    pub fn new(contents: &'a str) -> (ctx: Ctx<'a>)
        ensures
            ctx@ == (CtxView {
                contents: contents@,
                scopes: seq![ScopeView { variables: Map::empty(), is_hard: true }],
                functions: Map::empty(),
                statements: None,
                threw: false,
                thrown: ValueView::Void,
                args: Seq::empty(),
                parsing_function: None,
                jump: None,
                arrays: Seq::empty(),
                work: Seq::empty(),
                values: Seq::empty(),
                memo: Seq::empty(),
                asked: None,
            }),
            well_formed(ctx@.scopes),
    {
        let mut scopes: Vec<Scope> = Vec::new();
        scopes.push(Scope::new(true));
        let ctx = Ctx {
            contents,
            scopes,
            functions: Vec::new(),
            statements: None,
            threw: false,
            thrown: Value::Void,
            args: Vec::new(),
            parsing_function: None,
            jump: None,
            arrays: Vec::new(),
            work: Vec::new(),
            values: Vec::new(),
            memo: Memo::new(),
            asked: None,
        };
        proof {
            assert(ctx@.scopes =~= seq![ScopeView { variables: Map::empty(), is_hard: true }]);
            assert(ctx@.args =~= Seq::empty());
            assert(ctx@.arrays =~= Seq::empty());
            assert(ctx@.work =~= Seq::empty());
            assert(ctx@.values =~= Seq::empty());
        }
        ctx
    }

    /// Nothing is to prepare before a run.
    pub fn prep_run(&mut self)
        ensures
            *final(self) == *old(self),
    {
    }

    /// Raises `value`: sets the flag that the driving loop checks after
    /// each statement.
    pub fn throw(&mut self, value: Value)
        ensures
            final(self)@ == (CtxView { threw: true, thrown: unmarked(value@), ..old(self)@ }),
    {
        self.threw = true;
        self.thrown = value.resolved();
    }

    /// Takes the thrown value and clears the flag.
    pub fn catch(&mut self) -> (value: Value)
        requires
            old(self).threw,
        ensures
            value@ == old(self)@.thrown,
            final(self)@ == (CtxView { threw: false, thrown: ValueView::Void, ..old(self)@ }),
    {
        self.threw = false;
        let mut value = Value::Void;
        std::mem::swap(&mut self.thrown, &mut value);
        value
    }

    /// Registers a function; a second function of the same name replaces
    /// the first.
    pub fn add_function(&mut self, name: String, address: usize, args: Vec<String>)
        ensures
            final(self)@ == (CtxView {
                functions: old(self)@.functions.insert(
                    name@,
                    FunctionView { address, args: names_view(args@) },
                ),
                ..old(self)@
            }),
    {
        put(&mut self.functions, name, Function { address, args });
    }

    /// Writes a variable; see [`written`].
    pub fn set_variable(&mut self, variable: String, value: Value)
        ensures
            final(self)@ == (CtxView {
                scopes: written(old(self)@.scopes, variable@, unmarked(value@)),
                ..old(self)@
            }),
            well_formed(old(self)@.scopes) ==> well_formed(final(self)@.scopes),
    {
        let value = value.resolved();
        match locate(&self.scopes, &variable) {
            Some((frame, _)) => {
                put(&mut self.scopes[frame].variables, variable, value);
                assert(scopes_view(self.scopes@) =~= bound_at(
                    scopes_view(old(self).scopes@),
                    frame as int,
                    variable@,
                    value@,
                ));
            },
            None => {
                let top = self.scopes.len();
                if top > 0 {
                    put(&mut self.scopes[top - 1].variables, variable, value);
                    assert(scopes_view(self.scopes@) =~= bound_at(
                        scopes_view(old(self).scopes@),
                        top - 1,
                        variable@,
                        value@,
                    ));
                }
            },
        }
    }

    /// Binds a variable in the topmost frame, whatever the frames below
    /// hold.
    pub fn set_variable_here(&mut self, variable: String, value: Value)
        ensures
            final(self)@ == (CtxView {
                scopes: written_here(old(self)@.scopes, variable@, unmarked(value@)),
                ..old(self)@
            }),
            well_formed(old(self)@.scopes) ==> well_formed(final(self)@.scopes),
    {
        let value = value.resolved();
        let top = self.scopes.len();
        if top > 0 {
            put(&mut self.scopes[top - 1].variables, variable, value);
            assert(scopes_view(self.scopes@) =~= bound_at(
                scopes_view(old(self).scopes@),
                top - 1,
                variable@,
                value@,
            ));
        }
    }

    /// Reads a variable; see [`read`].
    pub fn get_variable(&self, variable: &str) -> (value: Value)
        ensures
            value@ == read(self@.scopes, variable@),
    {
        let name = String::from_str(variable);
        match locate(&self.scopes, &name) {
            Some((frame, entry)) => self.scopes[frame].variables[entry].1.clone(),
            None => Value::Void,
        }
    }

    /// Puts a new empty frame on top of the scope stack.
    pub fn push_scope(&mut self, is_hard: bool)
        ensures
            final(self)@ == (CtxView { scopes: pushed(old(self)@.scopes, is_hard), ..old(self)@ }),
            well_formed(old(self)@.scopes) ==> well_formed(final(self)@.scopes),
    {
        self.scopes.push(Scope::new(is_hard));
        assert(scopes_view(self.scopes@) =~= pushed(scopes_view(old(self).scopes@), is_hard));
    }

    /// Removes the topmost frame, unless it is the bottom frame.
    pub fn pop_scope(&mut self)
        ensures
            final(self)@ == (CtxView { scopes: popped(old(self)@.scopes), ..old(self)@ }),
            well_formed(old(self)@.scopes) ==> well_formed(final(self)@.scopes),
    {
        if self.scopes.len() > 1 {
            self.scopes.pop();
            assert(scopes_view(self.scopes@) =~= popped(scopes_view(old(self).scopes@)));
        }
    }

    /// Enters a call: a new hard frame.
    pub fn up(&mut self)
        ensures
            final(self)@ == (CtxView { scopes: pushed(old(self)@.scopes, true), ..old(self)@ }),
            well_formed(old(self)@.scopes) ==> well_formed(final(self)@.scopes),
    {
        self.push_scope(true);
    }

    /// Leaves a call; see [`left_call`].
    pub fn down(&mut self)
        ensures
            final(self)@ == (CtxView { scopes: left_call(old(self)@.scopes), ..old(self)@ }),
            well_formed(old(self)@.scopes) ==> well_formed(final(self)@.scopes),
    {
        while self.scopes.len() > 1 && !self.scopes[self.scopes.len() - 1].is_hard
            invariant
                without_soft_top(scopes_view(old(self).scopes@)) == without_soft_top(
                    scopes_view(self.scopes@),
                ),
                self@ == (CtxView { scopes: scopes_view(self.scopes@), ..old(self)@ }),
                well_formed(old(self)@.scopes) ==> well_formed(self@.scopes),
            decreases self.scopes@.len(),
        {
            let ghost before = scopes_view(self.scopes@);
            self.scopes.pop();
            assert(scopes_view(self.scopes@) =~= before.drop_last());
        }
        if self.scopes.len() > 1 && self.scopes[self.scopes.len() - 1].is_hard {
            let ghost before = scopes_view(self.scopes@);
            self.scopes.pop();
            assert(scopes_view(self.scopes@) =~= before.drop_last());
        }
    }
}

/// The hard frame that bounds the region of frame `from`: the nearest hard
/// frame at or below it.
pub open spec fn region_start(scopes: Seq<ScopeView>, from: int) -> int
    decreases from + 1,
{
    if from <= 0 || from >= scopes.len() {
        0
    } else if scopes[from].is_hard {
        from
    } else {
        region_start(scopes, from - 1)
    }
}

/// Where `holder` finds a name: in a frame of the reader's region that
/// binds it, with only soft frames that do not bind it in between.
proof fn lemma_holder(scopes: Seq<ScopeView>, name: Seq<char>, from: int)
    ensures
        match holder(scopes, name, from) {
            Some(i) => {
                &&& 0 <= i
                &&& region_start(scopes, from) <= i <= from < scopes.len()
                &&& scopes[i].variables.contains_key(name)
                &&& forall|j: int|
                    i < j <= from ==> !(#[trigger] scopes[j]).is_hard
                        && !scopes[j].variables.contains_key(name)
            },
            None => true,
        },
    decreases from + 1,
{
    if from < 0 || from >= scopes.len() {
    } else if scopes[from].variables.contains_key(name) {
        lemma_region_below(scopes, from);
    } else if scopes[from].is_hard {
    } else {
        lemma_holder(scopes, name, from - 1);
    }
}

proof fn lemma_region_below(scopes: Seq<ScopeView>, from: int)
    ensures
        region_start(scopes, from) <= from || from < 0,
        0 <= region_start(scopes, from),
    decreases from + 1,
{
    if from <= 0 || from >= scopes.len() {
    } else if scopes[from].is_hard {
    } else {
        lemma_region_below(scopes, from - 1);
    }
}

/// A reader whose way down to frame `i` leads through soft frames that do
/// not bind the name finds it in frame `i`.
proof fn lemma_found_at(scopes: Seq<ScopeView>, name: Seq<char>, from: int, i: int)
    requires
        0 <= i <= from < scopes.len(),
        scopes[i].variables.contains_key(name),
        forall|j: int|
            i < j <= from ==> !(#[trigger] scopes[j]).is_hard && !scopes[j].variables.contains_key(
                name,
            ),
    ensures
        holder(scopes, name, from) == Some(i),
    decreases from - i,
{
    if from > i {
        assert(!scopes[from].is_hard && !scopes[from].variables.contains_key(name));
        lemma_found_at(scopes, name, from - 1, i);
    }
}

/// A read that follows a write of the same name yields the written value.
pub proof fn read_after_write(scopes: Seq<ScopeView>, name: Seq<char>, v: ValueView)
    requires
        scopes.len() > 0,
    ensures
        read(written(scopes, name, v), name) == v,
        well_formed(scopes) ==> well_formed(written(scopes, name, v)),
{
    let top = scopes.len() - 1;
    let after = written(scopes, name, v);
    lemma_holder(scopes, name, top);
    match holder(scopes, name, top) {
        Some(i) => {
            assert(after == bound_at(scopes, i, name, v));
            assert(after.len() == scopes.len());
            assert(forall|j: int| i < j <= top ==> after[j] == scopes[j]);
            lemma_found_at(after, name, top, i);
        },
        None => {
            assert(after == bound_at(scopes, top, name, v));
            assert(after.len() == scopes.len());
            lemma_found_at(after, name, top, top);
        },
    }
}

/// A write to a name that a frame of the region holds is seen by every
/// reader between that frame and the top: leaving the soft frames above
/// does not lose it.
pub proof fn write_is_seen_within_region(
    scopes: Seq<ScopeView>,
    name: Seq<char>,
    v: ValueView,
    reader: int,
)
    requires
        holder(scopes, name, scopes.len() - 1) is Some,
        holder(scopes, name, scopes.len() - 1)->0 <= reader < scopes.len(),
    ensures
        read(written(scopes, name, v).take(reader + 1), name) == v,
{
    let top = scopes.len() - 1;
    let i = holder(scopes, name, top)->0;
    lemma_holder(scopes, name, top);
    let after = written(scopes, name, v);
    assert(after == bound_at(scopes, i, name, v));
    let seen = after.take(reader + 1);
    assert(seen.len() == reader + 1);
    assert(forall|j: int| i < j <= reader ==> seen[j] == scopes[j]);
    assert(seen[i] == after[i]);
    lemma_found_at(seen, name, reader, i);
}

/// Neither a read nor a write crosses a hard frame: a name is found at or
/// above the hard frame that bounds the topmost region, and a write leaves
/// every frame below that one as it was.
pub proof fn hard_frame_bounds_access(scopes: Seq<ScopeView>, name: Seq<char>, v: ValueView, k: int)
    requires
        0 <= k < region_start(scopes, scopes.len() - 1),
    ensures
        holder(scopes, name, scopes.len() - 1) matches Some(i) ==> i > k,
        written(scopes, name, v).len() == scopes.len(),
        written(scopes, name, v)[k] == scopes[k],
{
    let top = scopes.len() - 1;
    lemma_holder(scopes, name, top);
    lemma_region_below(scopes, top);
}

proof fn lemma_soft_frames_go(below: Seq<ScopeView>, above: Seq<ScopeView>)
    requires
        below.len() >= 1,
        below.last().is_hard,
        forall|i: int| 0 <= i < above.len() ==> !(#[trigger] above[i]).is_hard,
    ensures
        without_soft_top(below + above) == below,
    decreases above.len(),
{
    let all = below + above;
    if above.len() == 0 {
        assert(all =~= below);
    } else {
        assert(all.last() == above.last());
        assert(all.drop_last() =~= below + above.drop_last());
        lemma_soft_frames_go(below, above.drop_last());
    }
}

/// Leaving a call undoes entering it: the call's hard frame goes, whatever
/// was bound in it, and with it the soft frames that were left above it;
/// the caller's frames are as they were.
pub proof fn leaving_undoes_entering(
    scopes: Seq<ScopeView>,
    frame: ScopeView,
    above: Seq<ScopeView>,
)
    requires
        scopes.len() >= 1,
        frame.is_hard,
        forall|i: int| 0 <= i < above.len() ==> !(#[trigger] above[i]).is_hard,
    ensures
        left_call(scopes.push(frame) + above) == scopes,
        left_call(pushed(scopes, true)) == scopes,
{
    lemma_soft_frames_go(scopes.push(frame), above);
    assert(scopes.push(frame).drop_last() =~= scopes);
    let entered = pushed(scopes, true);
    lemma_soft_frames_go(entered, Seq::empty());
    assert(entered + Seq::<ScopeView>::empty() =~= entered);
    assert(entered.drop_last() =~= scopes);
}

} // verus!
