//! The evaluation engine: one stack, one variable store, two text channels,
//! and the programs that are under way.
//!
//! The engine runs in steps. A step carries out one token, or finishes one
//! nested program, and says what it asks of the host. It never waits: where
//! it needs an answer it changes nothing but to remember its question, and
//! the next step, with the answer, takes the token up again.

use vstd::prelude::*;
use crate::command::{
    evaluate_token, token_plan, Change, ChangeView, Control, ControlView, Effect, EffectView,
    Sweep,
};
use crate::host::{asked, Fact, FactView, Question, QuestionView, Request, RequestView};
use crate::report::Result;
use crate::store::{bound, freed, lookup, memory_line, BindingView, Memory};
use crate::syntax::{analyze_syntax, tokens};
use crate::text::{append, append_str, join, join_texts, lift, string_of_text, text_of};
use crate::value::{
    copy_all, displays, maybe, shown, truth_of, view_of_list, Value, ValueView,
};

verus! {

broadcast use view_of_list;

/// A program under way, or what waits for one to finish.
#[derive(Debug, PartialEq, Eq)]
pub enum Frame {
    /// A program: its tokens and how many of them are done.
    Program { tokens: Vec<Vec<char>>, next: usize },
    /// A list under construction: what stands on the stack above `base`
    /// when its program is done becomes the list.
    Gather { base: usize },
    /// A `while`: its condition and its body, and whether the condition
    /// has just run and its verdict lies on the stack.
    Loop { cond: Vec<char>, body: Vec<char>, testing: bool },
    /// A `for`, `map` or `filter`: the items, how many of them the body has
    /// been started for, the name each is bound to, the body, and what has
    /// been kept for the result.
    Each {
        sweep: Sweep,
        items: Vec<Value>,
        done: usize,
        name: Vec<char>,
        body: Vec<char>,
        kept: Vec<Value>,
    },
}

/// A frame as contracts see it.
pub ghost enum FrameView {
    Program { tokens: Seq<Seq<char>>, next: nat },
    Gather { base: nat },
    Loop { cond: Seq<char>, body: Seq<char>, testing: bool },
    Each {
        sweep: Sweep,
        items: Seq<ValueView>,
        done: nat,
        name: Seq<char>,
        body: Seq<char>,
        kept: Seq<ValueView>,
    },
}

impl View for Frame {
    type V = FrameView;

    open spec fn view(&self) -> FrameView {
        match self {
            Frame::Program { tokens, next } => FrameView::Program {
                tokens: lift(tokens@),
                next: *next as nat,
            },
            Frame::Gather { base } => FrameView::Gather { base: *base as nat },
            Frame::Loop { cond, body, testing } => FrameView::Loop {
                cond: cond@,
                body: body@,
                testing: *testing,
            },
            Frame::Each { sweep, items, done, name, body, kept } => FrameView::Each {
                sweep: *sweep,
                items: lift(items@),
                done: *done as nat,
                name: name@,
                body: body@,
                kept: lift(kept@),
            },
        }
    }
}

/// The frame of a program that is about to start.
pub open spec fn program(code: Seq<char>) -> FrameView {
    FrameView::Program { tokens: tokens(code), next: 0 }
}

/// The line of the trace that shows the stack.
pub open spec fn stack_line(stack: Seq<ValueView>) -> Seq<char> {
    "Stack〔 "@ + join(displays(stack), " | "@) + " 〕"@
}

/// The line of the trace for a value missing from the stack.
pub open spec fn underflow_error() -> Seq<char> {
    "エラー! スタックの値が足りません。デフォルト値を返します\n"@
}

/// What the host is asked after a token with this effect.
pub open spec fn signal(control: ControlView) -> RequestView {
    match control {
        ControlView::Halt(n) => RequestView::Exit(n),
        _ => RequestView::Continue,
    }
}

/// The engine as contracts see it.
#[verifier::ext_equal]
pub ghost struct State {
    /// The value stack, its top last.
    pub stack: Seq<ValueView>,
    /// The variable store.
    pub memory: Seq<BindingView>,
    /// What the program has printed.
    pub output: Seq<char>,
    /// The trace.
    pub log: Seq<char>,
    /// The programs under way, the innermost last.
    pub frames: Seq<FrameView>,
    /// What the host has answered since the current token was taken up.
    pub facts: Seq<FactView>,
    /// The question that the host was asked last and has not answered.
    pub pending: Option<QuestionView>,
}

impl State {
    /// The engine before anything has run.
    pub open spec fn initial() -> State {
        State {
            stack: Seq::empty(),
            memory: Seq::empty(),
            output: Seq::empty(),
            log: Seq::empty(),
            frames: Seq::empty(),
            facts: Seq::empty(),
            pending: None,
        }
    }

    /// With a text added to the trace.
    pub open spec fn logged(self, t: Seq<char>) -> State {
        State { log: self.log + t, ..self }
    }

    /// With a text added to the output.
    pub open spec fn printed(self, t: Seq<char>) -> State {
        State { output: self.output + t, ..self }
    }

    /// With a value put on the stack.
    pub open spec fn pushed(self, v: ValueView) -> State {
        State { stack: self.stack.push(v), ..self }
    }

    /// With values put on the stack, the last on top.
    pub open spec fn given(self, vs: Seq<ValueView>) -> State {
        State { stack: self.stack + vs, ..self }
    }

    /// With the top of the stack taken off, and the value taken. An empty
    /// stack gives the empty string and a line in the trace.
    pub open spec fn popped(self) -> (State, ValueView) {
        if self.stack.len() > 0 {
            (State { stack: self.stack.drop_last(), ..self }, self.stack.last())
        } else {
            (self.logged(underflow_error()), ValueView::String(Seq::empty()))
        }
    }

    /// With `n` values taken off the stack, one after the other.
    pub open spec fn taking(self, n: nat) -> State
        decreases n,
    {
        if n == 0 {
            self
        } else {
            self.popped().0.taking((n - 1) as nat)
        }
    }

    /// With one more frame, the innermost.
    pub open spec fn entered(self, f: FrameView) -> State {
        State { frames: self.frames.push(f), ..self }
    }

    /// Without the innermost frame.
    pub open spec fn left(self) -> State {
        State { frames: self.frames.drop_last(), ..self }
    }

    /// With a program about to start as the innermost frame.
    pub open spec fn running(self, code: Seq<char>) -> State {
        self.entered(program(code))
    }

    /// With no facts and no question: ready for the next token.
    pub open spec fn rested(self) -> State {
        State { facts: Seq::empty(), pending: None, ..self }
    }

    /// With a question for the host.
    pub open spec fn asking(self, q: QuestionView) -> State {
        State { pending: Some(q), ..self }
    }

    /// With the host's reply kept as the answer to the pending question. A
    /// reply that no question called for is dropped.
    pub open spec fn learned(self, reply: Option<ValueView>) -> State {
        match self.pending {
            Some(q) => State {
                facts: self.facts.push(FactView { question: q, answer: reply }),
                pending: None,
                ..self
            },
            None => self,
        }
    }

    /// With the store changed, and after a change the store shown in the
    /// trace.
    pub open spec fn changed(self, change: ChangeView) -> State {
        match change {
            ChangeView::Keep => self,
            ChangeView::Bind(name, value) => {
                let memory = bound(self.memory, name, value);
                State { memory, ..self }.logged(memory_line(memory))
            },
            ChangeView::Free(name) => {
                let memory = freed(self.memory, name);
                State { memory, ..self }.logged(memory_line(memory))
            },
        }
    }

    /// With the frames that an effect's control calls for.
    pub open spec fn directed(self, control: ControlView) -> State {
        match control {
            ControlView::Proceed => self,
            ControlView::Run(code) => self.running(code),
            ControlView::Gather(code) => self.entered(
                FrameView::Gather { base: self.stack.len() },
            ).running(code),
            ControlView::Loop(cond, body) => self.entered(
                FrameView::Loop { cond, body, testing: true },
            ).running(cond),
            ControlView::Each(sweep, items, name, body) => self.entered(
                FrameView::Each { sweep, items, done: 0, name, body, kept: Seq::empty() },
            ),
            ControlView::Halt(_) => State { frames: Seq::empty(), ..self },
        }
    }

    /// With an effect carried out: the operands taken, the lines written,
    /// the store changed, the results given, the frames entered.
    pub open spec fn applied(self, e: EffectView) -> State {
        self.taking(e.taken).logged(e.note).printed(e.print).changed(e.change).given(
            e.given,
        ).directed(e.control)
    }

    /// With the line of the trace that precedes a token.
    pub open spec fn traced(self, token: Seq<char>) -> State {
        self.logged(stack_line(self.stack)).logged(" ←  "@).logged(token).logged("\n"@)
    }
}

/// What a body has left for the item it was last run for: `map` keeps the
/// value on top of the stack, `filter` keeps the item where that value is
/// true, `for` keeps nothing. Before the first item there is nothing to
/// keep.
pub open spec fn harvest(
    s: State,
    sweep: Sweep,
    items: Seq<ValueView>,
    done: nat,
    kept: Seq<ValueView>,
) -> (State, Seq<ValueView>) {
    if done == 0 {
        (s, kept)
    } else {
        match sweep {
            Sweep::Visit => (s, kept),
            Sweep::Collect => (s.popped().0, kept.push(s.popped().1)),
            Sweep::Select => (
                s.popped().0,
                if truth_of(s.popped().1) && done <= items.len() {
                    kept.push(items[done - 1])
                } else {
                    kept
                },
            ),
        }
    }
}

/// One step on the innermost frame, which has been taken off the state.
pub open spec fn step_frame(s: State, frame: FrameView) -> (State, RequestView) {
    match frame {
        FrameView::Program { tokens, next } => if next < tokens.len() {
            match token_plan(tokens[next as int], s.stack, s.memory, s.facts) {
                Err(q) => (s.entered(frame).asking(q), RequestView::Ask(q)),
                Ok(e) => (
                    s.traced(tokens[next as int]).entered(
                        FrameView::Program { tokens, next: next + 1 },
                    ).applied(e).rested(),
                    signal(e.control),
                ),
            }
        } else {
            (s.logged(stack_line(s.stack)).logged("\n"@).rested(), RequestView::Continue)
        },
        FrameView::Gather { base } => {
            let from = if base <= s.stack.len() {
                base as int
            } else {
                s.stack.len() as int
            };
            (
                State {
                    stack: s.stack.subrange(0, from).push(
                        ValueView::List(s.stack.subrange(from, s.stack.len() as int)),
                    ),
                    ..s
                }.rested(),
                RequestView::Continue,
            )
        },
        FrameView::Loop { cond, body, testing } => if testing {
            if truth_of(s.popped().1) {
                (
                    s.popped().0.entered(FrameView::Loop { cond, body, testing: false }).running(
                        body,
                    ).rested(),
                    RequestView::Continue,
                )
            } else {
                (s.popped().0.rested(), RequestView::Continue)
            }
        } else {
            (
                s.entered(FrameView::Loop { cond, body, testing: true }).running(cond).rested(),
                RequestView::Continue,
            )
        },
        FrameView::Each { sweep, items, done, name, body, kept } => {
            let (s1, kept1) = harvest(s, sweep, items, done, kept);
            if done < items.len() {
                (
                    State { memory: bound(s1.memory, name, items[done as int]), ..s1 }.entered(
                        FrameView::Each { sweep, items, done: done + 1, name, body, kept: kept1 },
                    ).running(body).rested(),
                    RequestView::Continue,
                )
            } else if sweep == Sweep::Visit {
                (s1.rested(), RequestView::Continue)
            } else {
                (s1.pushed(ValueView::List(kept1)).rested(), RequestView::Continue)
            }
        },
    }
}

/// One step of the engine. The host's reply answers the pending question.
/// With no frame left the engine is finished. Else the step belongs to the
/// innermost frame: a program carries out its next token, or ends with a
/// last line in the trace; a list under construction, a loop or a sweep
/// goes on from where its program ended.
pub open spec fn step_spec(s: State, reply: Option<ValueView>) -> (State, RequestView) {
    let s = s.learned(reply);
    if s.frames.len() == 0 {
        (s.rested(), RequestView::Finished)
    } else {
        step_frame(s.left(), s.frames.last())
    }
}

/// The evaluation engine.
pub struct Executor {
    stack: Vec<Value>,
    memory: Memory,
    output: Vec<char>,
    log: Vec<char>,
    frames: Vec<Frame>,
    facts: Vec<Fact>,
    pending: Option<Question>,
}

impl View for Executor {
    type V = State;

    closed spec fn view(&self) -> State {
        State {
            stack: lift(self.stack@),
            memory: self.memory@,
            output: self.output@,
            log: self.log@,
            frames: lift(self.frames@),
            facts: lift(self.facts@),
            pending: asked(self.pending),
        }
    }
}

impl Executor {
    /// An engine with nothing on its stack, in its store or under way.
    pub fn new() -> (r: Executor)
        ensures
            r@ == State::initial(),
    {
        let r = Executor {
            stack: Vec::new(),
            memory: Memory::new(),
            output: Vec::new(),
            log: Vec::new(),
            frames: Vec::new(),
            facts: Vec::new(),
            pending: None,
        };
        assert(r@ =~= State::initial());
        r
    }

    /// Adds a text to the output.
    pub fn print(&mut self, msg: &Vec<char>)
        ensures
            final(self)@ == old(self)@.printed(msg@),
    {
        append(&mut self.output, msg);
    }

    /// Adds a text to the trace.
    pub fn log(&mut self, msg: &Vec<char>)
        ensures
            final(self)@ == old(self)@.logged(msg@),
    {
        append(&mut self.log, msg);
    }

    /// Shows the store in the trace.
    pub fn show_variables(&mut self)
        ensures
            final(self)@ == old(self)@.logged(memory_line(old(self)@.memory)),
    {
        let line = self.memory.show();
        self.log(&line);
    }

    /// Shows the stack in the trace.
    pub fn show_stack(&mut self)
        ensures
            final(self)@ == old(self)@.logged(stack_line(old(self)@.stack)),
    {
        let mut parts: Vec<Vec<char>> = Vec::new();
        let mut i: usize = 0;
        assert(lift(parts@) =~= shown(lift(self.stack@), 0));
        while i < self.stack.len()
            invariant
                i <= self.stack.len(),
                lift(parts@) == shown(lift(self.stack@), i as nat),
                *self == *old(self),
            decreases self.stack.len() - i,
        {
            let d = self.stack[i].display();
            assert(lift(parts@.push(d)) =~= lift(parts@).push(d@));
            parts.push(d);
            i = i + 1;
        }
        let mut line = text_of("Stack〔 ");
        let sep = text_of(" | ");
        let inner = join_texts(&parts, &sep);
        append(&mut line, &inner);
        append_str(&mut line, " 〕");
        self.log(&line);
    }

    /// Takes the top of the stack. An empty stack gives the empty string
    /// and a line in the trace.
    pub fn pop_stack(&mut self) -> (v: Value)
        ensures
            final(self)@ == old(self)@.popped().0,
            v@ == old(self)@.popped().1,
    {
        match self.stack.pop() {
            Some(v) => {
                assert(self@ =~= old(self)@.popped().0);
                v
            },
            None => {
                let line = text_of("エラー! スタックの値が足りません。デフォルト値を返します\n");
                self.log(&line);
                Value::String(Vec::new())
            },
        }
    }

    /// Takes `n` values off the stack.
    fn take(&mut self, n: usize)
        ensures
            final(self)@ == old(self)@.taking(n as nat),
    {
        let mut i: usize = 0;
        while i < n
            invariant
                i <= n,
                self@.taking((n - i) as nat) == old(self)@.taking(n as nat),
            decreases n - i,
        {
            let _ = self.pop_stack();
            i = i + 1;
        }
    }

    /// Enters a frame.
    fn enter(&mut self, f: Frame)
        ensures
            final(self)@ == old(self)@.entered(f@),
    {
        self.frames.push(f);
        assert(self@ =~= old(self)@.entered(f@));
    }

    /// Enters the program of a code.
    fn run(&mut self, code: &Vec<char>)
        ensures
            final(self)@ == old(self)@.running(code@),
    {
        let tokens = analyze_syntax(code);
        self.enter(Frame::Program { tokens, next: 0 });
    }

    /// Begins the evaluation of a program: its tokens become the innermost
    /// program under way, and `step` carries them out one by one.
    pub fn evaluate_program(&mut self, code: String)
        ensures
            final(self)@ == old(self)@.running(code@),
    {
        let text = text_of(code.as_str());
        self.run(&text);
    }

    /// Forgets the facts and the question of the token just done.
    fn rest(&mut self)
        ensures
            final(self)@ == old(self)@.rested(),
    {
        self.facts = Vec::new();
        self.pending = None;
        assert(self@ =~= old(self)@.rested());
    }

    /// Keeps the host's reply as the answer to the pending question.
    fn learn(&mut self, reply: Option<Value>)
        ensures
            final(self)@ == old(self)@.learned(maybe(reply)),
    {
        let question = match &self.pending {
            Some(q) => Some(q.copy()),
            None => None,
        };
        match question {
            Some(q) => {
                let fact = Fact { question: q, answer: reply };
                self.facts.push(fact);
                self.pending = None;
                assert(self@ =~= old(self)@.learned(maybe(reply)));
            },
            None => {},
        }
    }

    /// Changes the store and shows it in the trace.
    fn change(&mut self, change: Change)
        ensures
            final(self)@ == old(self)@.changed(change@),
    {
        match change {
            Change::Keep => {},
            Change::Bind(name, value) => {
                self.memory.set(name, value);
                self.show_variables();
            },
            Change::Free(name) => {
                self.memory.remove(&name);
                self.show_variables();
            },
        }
    }

    /// Enters the frames that a control calls for.
    fn direct(&mut self, control: Control)
        ensures
            final(self)@ == old(self)@.directed(control@),
    {
        match control {
            Control::Proceed => {},
            Control::Run(code) => {
                self.run(&code);
            },
            Control::Gather(code) => {
                let base = self.stack.len();
                self.enter(Frame::Gather { base });
                self.run(&code);
            },
            Control::Loop(cond, body) => {
                let first = cond.clone();
                self.enter(Frame::Loop { cond, body, testing: true });
                self.run(&first);
            },
            Control::Each(sweep, items, name, body) => {
                let kept: Vec<Value> = Vec::new();
                assert(lift(kept@) =~= Seq::<ValueView>::empty());
                self.enter(Frame::Each { sweep, items, done: 0, name, body, kept });
            },
            Control::Halt(_) => {
                self.frames = Vec::new();
                assert(self@ =~= old(self)@.directed(control@));
            },
        }
    }

    /// Carries out an effect.
    fn apply(&mut self, e: Effect)
        ensures
            final(self)@ == old(self)@.applied(e@),
    {
        let Effect { taken, given, note, print, change, control } = e;
        self.take(taken);
        self.log(&note);
        self.print(&print);
        self.change(change);
        let mut given = given;
        let ghost before = self@;
        self.stack.append(&mut given);
        assert(self@ =~= before.given(e@.given));
        self.direct(control);
    }

    /// One step on a program: its next token, or its end.
    fn step_program(&mut self, tokens: Vec<Vec<char>>, next: usize) -> (r: Request)
        ensures
            (final(self)@, r@) == step_frame(
                old(self)@,
                FrameView::Program { tokens: lift(tokens@), next: next as nat },
            ),
    {
        if next < tokens.len() {
            match evaluate_token(&tokens[next], &self.stack, &self.memory, &self.facts) {
                Err(q) => {
                    self.pending = Some(q.copy());
                    self.frames.push(Frame::Program { tokens, next });
                    assert(self@ =~= old(self)@.entered(
                        FrameView::Program { tokens: lift(tokens@), next: next as nat },
                    ).asking(q@));
                    Request::Ask(q)
                },
                Ok(e) => {
                    self.show_stack();
                    let arrow = text_of(" ←  ");
                    self.log(&arrow);
                    self.log(&tokens[next]);
                    let end = text_of("\n");
                    self.log(&end);
                    let request = match &e.control {
                        Control::Halt(n) => Request::Exit(*n),
                        _ => Request::Continue,
                    };
                    self.enter(Frame::Program { tokens, next: next + 1 });
                    self.apply(e);
                    self.rest();
                    request
                },
            }
        } else {
            self.show_stack();
            let end = text_of("\n");
            self.log(&end);
            self.rest();
            Request::Continue
        }
    }

    /// One step on a list under construction: what its program has left
    /// above the base becomes the list.
    fn step_gather(&mut self, base: usize) -> (r: Request)
        ensures
            (final(self)@, r@) == step_frame(old(self)@, FrameView::Gather { base: base as nat }),
    {
        let from: usize = if base <= self.stack.len() {
            base
        } else {
            self.stack.len()
        };
        let ghost before = self.stack@;
        let items = self.stack.split_off(from);
        assert(lift(items@) =~= lift(before).subrange(from as int, before.len() as int));
        assert(lift(self.stack@) =~= lift(before).subrange(0, from as int));
        self.stack.push(Value::List(items));
        self.facts = Vec::new();
        self.pending = None;
        assert(self@ =~= step_frame(old(self)@, FrameView::Gather { base: base as nat }).0);
        Request::Continue
    }

    /// One step on a `while`.
    fn step_loop(&mut self, cond: Vec<char>, body: Vec<char>, testing: bool) -> (r: Request)
        ensures
            (final(self)@, r@) == step_frame(
                old(self)@,
                FrameView::Loop { cond: cond@, body: body@, testing },
            ),
    {
        if testing {
            let verdict = self.pop_stack();
            if verdict.get_bool() {
                let code = body.clone();
                self.enter(Frame::Loop { cond, body, testing: false });
                self.run(&code);
            }
        } else {
            let code = cond.clone();
            self.enter(Frame::Loop { cond, body, testing: true });
            self.run(&code);
        }
        self.rest();
        Request::Continue
    }

    /// One step on a `for`, `map` or `filter`.
    fn step_each(
        &mut self,
        sweep: Sweep,
        items: Vec<Value>,
        done: usize,
        name: Vec<char>,
        body: Vec<char>,
        kept: Vec<Value>,
    ) -> (r: Request)
        ensures
            (final(self)@, r@) == step_frame(
                old(self)@,
                FrameView::Each {
                    sweep,
                    items: lift(items@),
                    done: done as nat,
                    name: name@,
                    body: body@,
                    kept: lift(kept@),
                },
            ),
    {
        let mut kept = kept;
        let ghost kept0 = lift(kept@);
        if done > 0 {
            match sweep {
                Sweep::Visit => {},
                Sweep::Collect => {
                    let v = self.pop_stack();
                    assert(lift(kept@.push(v)) =~= kept0.push(v@));
                    kept.push(v);
                },
                Sweep::Select => {
                    let v = self.pop_stack();
                    if v.get_bool() && done <= items.len() {
                        let item = items[done - 1].copy();
                        assert(lift(kept@.push(item)) =~= kept0.push(item@));
                        kept.push(item);
                    }
                },
            }
        }
        assert((self@, lift(kept@)) == harvest(old(self)@, sweep, lift(items@), done as nat, kept0));
        if done < items.len() {
            let item = items[done].copy();
            let code = body.clone();
            self.memory.set(name.clone(), item);
            self.enter(Frame::Each { sweep, items, done: done + 1, name, body, kept });
            self.run(&code);
        } else {
            match sweep {
                Sweep::Visit => {},
                _ => {
                    let ghost before = self@;
                    self.stack.push(Value::List(kept));
                    assert(self@ =~= before.pushed(ValueView::List(lift(kept@))));
                },
            }
        }
        self.rest();
        Request::Continue
    }

    /// One step of the engine, with the host's answer to what the step
    /// before asked, if it asked. Says what the host is to do next.
    pub fn step(&mut self, reply: Option<Value>) -> (r: Request)
        ensures
            (final(self)@, r@) == step_spec(old(self)@, maybe(reply)),
    {
        self.learn(reply);
        let ghost s = self@;
        match self.frames.pop() {
            None => {
                self.rest();
                Request::Finished
            },
            Some(frame) => {
                assert(self@ =~= s.left());
                assert(frame@ == s.frames.last());
                match frame {
                    Frame::Program { tokens, next } => self.step_program(tokens, next),
                    Frame::Gather { base } => self.step_gather(base),
                    Frame::Loop { cond, body, testing } => self.step_loop(cond, body, testing),
                    Frame::Each { sweep, items, done, name, body, kept } => self.step_each(
                        sweep,
                        items,
                        done,
                        name,
                        body,
                        kept,
                    ),
                }
            },
        }
    }

    /// Whether nothing is left to run.
    pub fn is_finished(&self) -> (r: bool)
        ensures
            r == (self@.frames.len() == 0),
    {
        self.frames.len() == 0
    }

    /// A copy of the stack, its top last.
    pub fn stack(&self) -> (r: Vec<Value>)
        ensures
            lift(r@) == self@.stack,
    {
        copy_all(&self.stack)
    }

    /// The value bound to a name.
    pub fn variable(&self, name: &str) -> (r: Option<Value>)
        ensures
            maybe(r) == lookup(self@.memory, name@),
    {
        let text = text_of(name);
        self.memory.get(&text)
    }

    /// The output and the trace so far.
    pub fn result(&self) -> (r: Result)
        ensures
            r.output_text() == self@.output,
            r.log_text() == self@.log,
    {
        Result::new(string_of_text(&self.output), string_of_text(&self.log))
    }
}

} // verus!
