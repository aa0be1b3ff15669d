//! What holds of the language whatever the program and whatever the host.

use vstd::prelude::*;
use crate::command::{
    arity, command_named, decode_error, items, noted, num, outcome, place, plain, range_error,
    range_items, ready, scalar, token_plan, ChangeView, Command, EffectView, Sweep,
};
use crate::numeral::integer_digits;
use crate::executor::{
    harvest, program, stack_line, step_frame, step_spec, underflow_error, FrameView, State,
};
use crate::host::{answered, fact_from, FactView, QuestionView, RequestView};
use crate::store::{
    bound_keeps_distinct, bound_then_lookup, distinct, freed_keeps_distinct, lookup,
    memory_line, BindingView,
};
use crate::syntax::{boundary, collapse, collapsed, inner, quoted, round_depth, tokens};
use crate::text::{join, occurs_at, piece, pieces, repeat, replace, segments, split};
use crate::value::{coerced, coercion_question, kind_of, Kind, ValueView};

verus! {

/// Every value can be made of every kind. The host is asked at most one
/// question, and whatever it answers, the value made is of the kind asked
/// for.
pub proof fn coercion_is_total(v: ValueView, kind: Kind, answer: Option<ValueView>)
    requires
        kind != Kind::Any,
    ensures
        kind_of(coerced(v, kind, answer)) == kind,
{
}

/// A value made of its own kind is the value itself, and so is a value that
/// is taken as it is.
pub proof fn coercion_keeps_own_kind(v: ValueView, answer: Option<ValueView>)
    ensures
        coerced(v, kind_of(v), answer) == v,
        coerced(v, Kind::Any, answer) == v,
        coercion_question(v, kind_of(v)) is None,
{
}

/// Only a string that is to become a number raises a question: the host
/// is asked to read the string.
pub proof fn only_strings_are_read(v: ValueView, kind: Kind)
    ensures
        coercion_question(v, kind) is Some <==> (kind == Kind::Number && v is String),
        coercion_question(v, kind) is Some ==> coercion_question(v, kind)
            == Some(QuestionView::Parse(v->String_0)),
{
}

/// Once the host has answered a question, the facts answer it.
pub proof fn learned_question_is_answered(s: State, reply: Option<ValueView>)
    requires
        s.pending is Some,
    ensures
        answered(s.learned(reply).facts, s.pending->0),
{
    let facts = s.learned(reply).facts;
    let q = s.pending->0;
    answered_from(facts, q, 0, s.facts.len() as int);
}

proof fn answered_from(facts: Seq<FactView>, q: QuestionView, i: int, k: int)
    requires
        0 <= i <= k < facts.len(),
        facts[k].question == q,
    ensures
        fact_from(facts, q, i) is Some,
    decreases k - i,
{
    if facts[i].question != q {
        answered_from(facts, q, i + 1, k);
    }
}

/// The operands of a command ask only what the facts do not answer.
pub proof fn ready_asks_what_is_open(
    c: Command,
    stack: Seq<ValueView>,
    facts: Seq<FactView>,
    n: nat,
)
    ensures
        ready(c, stack, facts, n) is Err ==> !answered(facts, ready(c, stack, facts, n)->Err_0),
        ready(c, stack, facts, n) is Ok ==> ready(c, stack, facts, n)->Ok_0.len() == n,
    decreases n,
{
    if n > 0 {
        ready_asks_what_is_open(c, stack, facts, (n - 1) as nat);
    }
}

/// A token asks only what the facts do not answer: with each answer the
/// engine comes nearer to carrying the token out.
pub proof fn plan_asks_what_is_open(
    token: Seq<char>,
    stack: Seq<ValueView>,
    memory: Seq<BindingView>,
    facts: Seq<FactView>,
)
    ensures
        token_plan(token, stack, memory, facts) is Err ==> !answered(
            facts,
            token_plan(token, stack, memory, facts)->Err_0,
        ),
{
    let c = command_named(token);
    if c is Some {
        ready_asks_what_is_open(c->0, stack, facts, arity(c->0));
    }
}

/// A string in round brackets stands for the text between the brackets,
/// unchanged, whatever the stack, the store and the host's answers.
pub proof fn quoted_token_gives_its_text(
    text: Seq<char>,
    stack: Seq<ValueView>,
    memory: Seq<BindingView>,
    facts: Seq<FactView>,
)
    ensures
        token_plan(seq!['('] + text + seq![')'], stack, memory, facts) == Ok::<
            EffectView,
            QuestionView,
        >(plain(0, seq![ValueView::String(text)])),
{
    let token = seq!['('] + text + seq![')'];
    assert(token[0] == '(');
    assert(token[token.len() - 1] == ')');
    assert(quoted(token));
    assert(inner(token) =~= text);
}

/// A step on a string in round brackets puts the text between the
/// brackets on the stack, unchanged, and changes nothing else but the
/// trace. The host is not asked.
pub proof fn quoted_token_is_pushed(s: State, tokens: Seq<Seq<char>>, next: nat, text: Seq<char>)
    requires
        next < tokens.len(),
        tokens[next as int] == seq!['('] + text + seq![')'],
    ensures
        step_frame(s, FrameView::Program { tokens, next }).1 == RequestView::Continue,
        step_frame(s, FrameView::Program { tokens, next }).0.stack == s.stack.push(
            ValueView::String(text),
        ),
        step_frame(s, FrameView::Program { tokens, next }).0.memory == s.memory,
        step_frame(s, FrameView::Program { tokens, next }).0.output == s.output,
        step_frame(s, FrameView::Program { tokens, next }).0.frames == s.frames.push(
            FrameView::Program { tokens, next: next + 1 },
        ),
{
    quoted_token_gives_its_text(text, s.stack, s.memory, s.facts);
    let after = step_frame(s, FrameView::Program { tokens, next }).0;
    assert(after.stack =~= s.stack.push(ValueView::String(text)));
    assert(after.output =~= s.output);
}

/// Whether the tokenizer leaves a text between round brackets as it is: the
/// text closes no round bracket that it has not opened, and holds no tab,
/// line feed, carriage return or ideographic space.
pub open spec fn keeps_in_brackets(text: Seq<char>) -> bool {
    &&& forall|i: int| 0 <= i <= text.len() ==> round_depth(text, i) >= 0
    &&& forall|i: int| 0 <= i < text.len() ==> collapse(#[trigger] text[i]) == text[i]
}

proof fn depth_in_brackets(text: Seq<char>, i: int)
    requires
        0 <= i <= text.len(),
    ensures
        round_depth(seq!['('] + text + seq![')'], i + 1) == 1 + round_depth(text, i),
    decreases i,
{
    let s = seq!['('] + text + seq![')'];
    if i == 0 {
        assert(s[0] == '(');
        assert(round_depth(s, 0) == 0);
    } else {
        depth_in_brackets(text, i - 1);
        assert(s[i] == text[i - 1]);
    }
}

proof fn uncut_is_one_piece(t: Seq<char>, cut: spec_fn(int) -> bool, start: int, i: int)
    requires
        0 <= start <= i <= t.len(),
        forall|j: int| i <= j < t.len() ==> !(#[trigger] cut(j)),
    ensures
        segments(t, cut, start, i) == piece(t, start, t.len() as int),
    decreases t.len() - i,
{
    if i < t.len() {
        uncut_is_one_piece(t, cut, start, i + 1);
    }
}

/// A text in round brackets that the tokenizer leaves as it is makes one
/// token, whatever spaces, square brackets or `#` it holds.
pub proof fn quoted_text_is_one_token(text: Seq<char>)
    requires
        keeps_in_brackets(text),
    ensures
        tokens(seq!['('] + text + seq![')']) == seq![seq!['('] + text + seq![')']],
{
    let s = seq!['('] + text + seq![')'];
    let cut = boundary(s);
    assert forall|j: int| 0 <= j < s.len() implies !(#[trigger] cut(j)) by {
        if j == 0 {
            assert(s[0] == '(');
        } else {
            depth_in_brackets(text, j - 1);
        }
    }
    assert forall|j: int| 0 <= j < s.len() implies collapse(s[j]) == s[j] by {
        if j == 0 {
            assert(s[0] == '(');
        } else if j == s.len() - 1 {
            assert(s[j] == ')');
        } else {
            assert(s[j] == text[j - 1]);
        }
    }
    assert(collapsed(s) =~= s);
    uncut_is_one_piece(s, cut, 0, 0);
    assert(s.subrange(0, s.len() as int) =~= s);
}

/// Evaluating a string in round brackets puts the text between the
/// brackets on the stack, unchanged: nothing in it is escaped or run.
/// Begun on any engine, the program takes two steps, the first for its
/// token and the second for its end; neither asks the host, and store and
/// output stay as they were.
pub proof fn quoted_program_gives_its_text(
    s: State,
    text: Seq<char>,
    first: Option<ValueView>,
    second: Option<ValueView>,
)
    requires
        keeps_in_brackets(text),
    ensures
        ({
            let begun = s.running(seq!['('] + text + seq![')']);
            let one = step_spec(begun, first);
            let two = step_spec(one.0, second);
            &&& one.1 == RequestView::Continue
            &&& two.1 == RequestView::Continue
            &&& two.0.stack == s.stack.push(ValueView::String(text))
            &&& two.0.memory == s.memory
            &&& two.0.output == s.output
            &&& two.0.frames == s.frames
        }),
{
    let token = seq!['('] + text + seq![')'];
    quoted_text_is_one_token(text);
    let begun = s.running(token);
    let taught = begun.learned(first);
    assert(taught.frames == begun.frames);
    assert(taught.frames.last() == program(token));
    let at = taught.left();
    assert(at.frames =~= s.frames);
    quoted_token_is_pushed(at, tokens(token), 0, text);
    let one = step_spec(begun, first);
    assert(one == step_frame(at, program(token)));
    let again = one.0.learned(second);
    assert(again == one.0);
    assert(again.frames.last() == FrameView::Program { tokens: tokens(token), next: 1 });
    assert(again.left().frames =~= s.frames);
}

/// No step binds a name twice: a store whose names are distinct keeps
/// them so.
pub proof fn step_keeps_names_distinct(s: State, reply: Option<ValueView>)
    requires
        distinct(s.memory),
    ensures
        distinct(step_spec(s, reply).0.memory),
{
    let s1 = s.learned(reply);
    if s1.frames.len() > 0 {
        let s0 = s1.left();
        match s1.frames.last() {
            FrameView::Program { tokens, next } => {
                if next < tokens.len() {
                    let plan = token_plan(tokens[next as int], s0.stack, s0.memory, s0.facts);
                    if let Ok(e) = plan {
                        let before = s0.traced(tokens[next as int]).entered(
                            FrameView::Program { tokens, next: next + 1 },
                        );
                        taking_never_fails(before, e.taken);
                        match e.change {
                            ChangeView::Keep => {},
                            ChangeView::Bind(name, value) => {
                                bound_keeps_distinct(s.memory, name, value);
                            },
                            ChangeView::Free(name) => {
                                freed_keeps_distinct(s.memory, name);
                            },
                        }
                    }
                }
            },
            FrameView::Gather { base } => {},
            FrameView::Loop { cond, body, testing } => {},
            FrameView::Each { sweep, items, done, name, body, kept } => {
                if done < items.len() {
                    bound_keeps_distinct(s.memory, name, items[done as int]);
                }
            },
        }
    }
}

/// Only `print` writes to the output: what goes wrong on the way is told in
/// the trace alone.
pub proof fn only_print_writes_output(
    c: Command,
    a: Seq<ValueView>,
    answer: Option<ValueView>,
    depth: nat,
    memory: Seq<BindingView>,
)
    requires
        c != Command::Print,
    ensures
        outcome(c, a, answer, depth, memory).print == Seq::<char>::empty(),
{
}

/// Whether the output and the trace of `b` begin with those of `a`.
pub open spec fn grown(a: State, b: State) -> bool {
    a.output.is_prefix_of(b.output) && a.log.is_prefix_of(b.log)
}

proof fn grown_by(a: State, b: State, more_output: Seq<char>, more_log: Seq<char>)
    requires
        b.output == a.output + more_output,
        b.log == a.log + more_log,
    ensures
        grown(a, b),
{
    assert(b.output.subrange(0, a.output.len() as int) =~= a.output);
    assert(b.log.subrange(0, a.log.len() as int) =~= a.log);
}

proof fn grown_same(a: State, b: State)
    requires
        b.output == a.output,
        b.log == a.log,
    ensures
        grown(a, b),
{
    assert(b.output.subrange(0, a.output.len() as int) =~= a.output);
    assert(b.log.subrange(0, a.log.len() as int) =~= a.log);
}

proof fn grown_on(a: State, b: State, c: State)
    requires
        grown(a, b),
        grown(b, c),
    ensures
        grown(a, c),
{
    assert(c.output.subrange(0, a.output.len() as int) =~= a.output);
    assert(c.log.subrange(0, a.log.len() as int) =~= a.log);
}

proof fn popped_grows(s: State)
    ensures
        grown(s, s.popped().0),
{
    if s.stack.len() > 0 {
        grown_same(s, s.popped().0);
    } else {
        grown_by(s, s.popped().0, Seq::empty(), underflow_error());
    }
}

proof fn applied_grows(s: State, e: EffectView)
    ensures
        grown(s, s.applied(e)),
{
    let s1 = s.taking(e.taken);
    taking_never_fails(s, e.taken);
    let lines = repeat(
        underflow_error(),
        if e.taken <= s.stack.len() {
            0nat
        } else {
            (e.taken - s.stack.len()) as nat
        },
    );
    grown_by(s, s1, Seq::empty(), lines);
    let s2 = s1.logged(e.note);
    grown_by(s1, s2, Seq::empty(), e.note);
    let s3 = s2.printed(e.print);
    grown_by(s2, s3, e.print, Seq::empty());
    let s4 = s3.changed(e.change);
    match e.change {
        ChangeView::Keep => {
            grown_same(s3, s4);
        },
        ChangeView::Bind(name, value) => {
            grown_by(s3, s4, Seq::empty(), memory_line(s4.memory));
        },
        ChangeView::Free(name) => {
            grown_by(s3, s4, Seq::empty(), memory_line(s4.memory));
        },
    }
    let s5 = s4.given(e.given).directed(e.control);
    grown_same(s4, s5);
    grown_on(s, s1, s2);
    grown_on(s, s2, s3);
    grown_on(s, s3, s4);
    grown_on(s, s4, s5);
}

proof fn token_step_grows(s: State, tokens: Seq<Seq<char>>, next: nat)
    requires
        next < tokens.len(),
    ensures
        grown(s, step_frame(s, FrameView::Program { tokens, next }).0),
{
    let frame = FrameView::Program { tokens, next };
    let token = tokens[next as int];
    match token_plan(token, s.stack, s.memory, s.facts) {
        Err(q) => {
            grown_same(s, step_frame(s, frame).0);
        },
        Ok(e) => {
            let t1 = s.logged(stack_line(s.stack));
            grown_by(s, t1, Seq::empty(), stack_line(s.stack));
            let t2 = t1.logged(" ←  "@);
            grown_by(t1, t2, Seq::empty(), " ←  "@);
            let t3 = t2.logged(token);
            grown_by(t2, t3, Seq::empty(), token);
            let t4 = t3.logged("\n"@);
            grown_by(t3, t4, Seq::empty(), "\n"@);
            let t5 = t4.entered(FrameView::Program { tokens, next: next + 1 });
            grown_same(t4, t5);
            let t6 = t5.applied(e);
            applied_grows(t5, e);
            let t7 = t6.rested();
            grown_same(t6, t7);
            grown_on(s, t1, t2);
            grown_on(s, t2, t3);
            grown_on(s, t3, t4);
            grown_on(s, t4, t5);
            grown_on(s, t5, t6);
            grown_on(s, t6, t7);
            assert(t7 == step_frame(s, frame).0);
        },
    }
}

proof fn frame_step_grows(s: State, frame: FrameView)
    ensures
        grown(s, step_frame(s, frame).0),
{
    let after = step_frame(s, frame).0;
    match frame {
        FrameView::Program { tokens, next } => {
            if next < tokens.len() {
                token_step_grows(s, tokens, next);
            } else {
                let t1 = s.logged(stack_line(s.stack));
                grown_by(s, t1, Seq::empty(), stack_line(s.stack));
                let t2 = t1.logged("\n"@);
                grown_by(t1, t2, Seq::empty(), "\n"@);
                grown_same(t2, after);
                grown_on(s, t1, t2);
                grown_on(s, t2, after);
            }
        },
        FrameView::Gather { base } => {
            grown_same(s, after);
        },
        FrameView::Loop { cond, body, testing } => {
            popped_grows(s);
            if testing {
                grown_same(s.popped().0, after);
                grown_on(s, s.popped().0, after);
            } else {
                grown_same(s, after);
            }
        },
        FrameView::Each { sweep, items, done, name, body, kept } => {
            popped_grows(s);
            let s1 = harvest(s, sweep, items, done, kept).0;
            if done == 0 || sweep == Sweep::Visit {
                grown_same(s, s1);
            }
            grown_same(s1, after);
            grown_on(s, s1, after);
        },
    }
}

/// The output and the trace only grow: no step takes back what was
/// written.
pub proof fn channels_only_grow(s: State, reply: Option<ValueView>)
    ensures
        grown(s, step_spec(s, reply).0),
{
    let s1 = s.learned(reply);
    grown_same(s, s1);
    if s1.frames.len() > 0 {
        let s0 = s1.left();
        grown_same(s1, s0);
        frame_step_grows(s0, s1.frames.last());
        grown_on(s, s1, s0);
        grown_on(s, s0, step_spec(s, reply).0);
    } else {
        grown_same(s1, s1.rested());
        grown_on(s, s1, s1.rested());
    }
}

/// An index that is negative, or at or beyond the end of its list, changes
/// nothing: `get`, `set` and `del` give the list back as it was, with a
/// line in the trace.
pub proof fn index_outside_gives_list_back(
    a: Seq<ValueView>,
    answer: Option<ValueView>,
    depth: nat,
    memory: Seq<BindingView>,
)
    ensures
        !(0 <= place(a, 0) < items(a, 1).len()) ==> outcome(Command::Get, a, answer, depth, memory)
            == noted(range_error(), plain(2, seq![ValueView::List(items(a, 1))])),
        !(0 <= place(a, 1) < items(a, 2).len()) ==> outcome(Command::Put, a, answer, depth, memory)
            == noted(range_error(), plain(3, seq![ValueView::List(items(a, 2))])),
        !(0 <= place(a, 0) < items(a, 1).len()) ==> outcome(Command::Del, a, answer, depth, memory)
            == noted(range_error(), plain(2, seq![ValueView::List(items(a, 1))])),
        !(0 <= place(a, 1) <= items(a, 2).len()) ==> outcome(
            Command::Insert,
            a,
            answer,
            depth,
            memory,
        ) == noted(range_error(), plain(3, seq![ValueView::List(items(a, 2))])),
{
}

/// A number that is no Unicode scalar value, a negative one among them,
/// is not decoded: `decode` gives the number back, with a line in the
/// trace.
pub proof fn no_character_gives_number_back(
    a: Seq<ValueView>,
    answer: Option<ValueView>,
    depth: nat,
    memory: Seq<BindingView>,
)
    requires
        !scalar(place(a, 0)),
    ensures
        outcome(Command::Decode, a, answer, depth, memory) == noted(
            decode_error(),
            plain(1, seq![ValueView::Number(num(a, 0))]),
        ),
{
}

/// A range holds the whole numbers `lo`, `lo + step`, `lo + 2 * step` and
/// so on, as long as they lie below `hi`: `lo` is in it, `hi` is not.
pub proof fn range_counts_up(lo: int, hi: int, step: int, k: int)
    requires
        step > 0,
        0 <= k,
    ensures
        k < range_items(lo, hi, step).len() <==> lo + k * step < hi,
        lo + k * step < hi ==> range_items(lo, hi, step)[k] == ValueView::Number(
            integer_digits(lo + k * step),
        ),
    decreases k,
{
    if k > 0 {
        assert(k * step == (k - 1) * step + step) by (nonlinear_arith);
        assert((k - 1) * step >= 0) by (nonlinear_arith)
            requires
                k - 1 >= 0,
                step > 0,
        ;
        if lo < hi {
            range_counts_up(lo + step, hi, step, k - 1);
        }
    }
}

/// Taking values off the stack never fails: what the stack holds is
/// taken, and each value that it lacks is a line in the trace.
pub proof fn taking_never_fails(s: State, n: nat)
    ensures
        s.taking(n).stack == s.stack.take(
            if n <= s.stack.len() {
                s.stack.len() - n
            } else {
                0
            },
        ),
        s.taking(n).log == s.log + repeat(
            underflow_error(),
            if n <= s.stack.len() {
                0nat
            } else {
                (n - s.stack.len()) as nat
            },
        ),
        s.taking(n).memory == s.memory,
        s.taking(n).output == s.output,
        s.taking(n).frames == s.frames,
    decreases n,
{
    if n == 0 {
        assert(s.stack.take(s.stack.len() as int) =~= s.stack);
        assert(s.log + repeat(underflow_error(), 0) =~= s.log);
    } else {
        let s1 = s.popped().0;
        taking_never_fails(s1, (n - 1) as nat);
        if s.stack.len() > 0 {
            if n <= s.stack.len() {
                assert(s1.stack.take(s.stack.len() - n) =~= s.stack.take(s.stack.len() - n));
            } else {
                assert(s1.stack.take(0) =~= s.stack.take(0));
            }
        } else {
            assert(s1.stack.take(0) =~= s.stack.take(0));
            repeat_front(underflow_error(), (n - 1) as nat);
            assert(s1.log + repeat(underflow_error(), (n - 1) as nat) =~= s.log + (
            underflow_error() + repeat(underflow_error(), (n - 1) as nat)));
        }
    }
}

proof fn repeat_front(t: Seq<char>, n: nat)
    ensures
        t + repeat(t, n) == repeat(t, n + 1),
    decreases n,
{
    if n == 0 {
        assert(t + repeat(t, 0) =~= repeat(t, 0) + t);
    } else {
        repeat_front(t, (n - 1) as nat);
        assert(t + (repeat(t, (n - 1) as nat) + t) =~= (t + repeat(t, (n - 1) as nat)) + t);
    }
}

/// A `for`, `map` or `filter` binds each item to its name in the one
/// store, over whatever the name was bound to before.
pub proof fn sweep_binds_item(
    s: State,
    sweep: Sweep,
    items: Seq<ValueView>,
    done: nat,
    name: Seq<char>,
    body: Seq<char>,
    kept: Seq<ValueView>,
)
    requires
        done < items.len(),
    ensures
        lookup(
            step_frame(s, FrameView::Each { sweep, items, done, name, body, kept }).0.memory,
            name,
        ) == Some(items[done as int]),
{
    bound_then_lookup(s.memory, name, items[done as int]);
}

/// When a `for`, `map` or `filter` ends, the store stays as the last run
/// of the body left it: the name remains bound.
pub proof fn sweep_end_keeps_store(
    s: State,
    sweep: Sweep,
    items: Seq<ValueView>,
    done: nat,
    name: Seq<char>,
    body: Seq<char>,
    kept: Seq<ValueView>,
)
    requires
        done >= items.len(),
    ensures
        step_frame(s, FrameView::Each { sweep, items, done, name, body, kept }).0.memory
            == s.memory,
{
}

proof fn join_from_front(first: Seq<char>, rest: Seq<Seq<char>>, sep: Seq<char>)
    requires
        rest.len() > 0,
    ensures
        join(seq![first] + rest, sep) == first + sep + join(rest, sep),
    decreases rest.len(),
{
    let all = seq![first] + rest;
    assert(all.drop_last() =~= seq![first] + rest.drop_last());
    assert(all.last() == rest.last());
    if rest.len() == 1 {
        assert(all.drop_last() =~= seq![first]);
        assert(join(all.drop_last(), sep) == first);
        assert(join(rest, sep) == rest[0]);
    } else {
        join_from_front(first, rest.drop_last(), sep);
        assert(first + sep + join(rest.drop_last(), sep) + sep + rest.last() =~= first + sep + (
        join(rest.drop_last(), sep) + sep + rest.last()));
    }
}

proof fn join_undoes_pieces(t: Seq<char>, w: Seq<char>, start: int, i: int)
    requires
        w.len() > 0,
        0 <= start <= i <= t.len(),
    ensures
        pieces(t, w, start, i).len() > 0,
        join(pieces(t, w, start, i), w) == t.subrange(start, t.len() as int),
    decreases t.len() - i,
{
    if i + w.len() > t.len() {
    } else if occurs_at(t, w, i) {
        let next = i + w.len();
        join_undoes_pieces(t, w, next, next);
        join_from_front(t.subrange(start, i), pieces(t, w, next, next), w);
        assert(t.subrange(start, i) + t.subrange(i, next) + t.subrange(next, t.len() as int)
            =~= t.subrange(start, t.len() as int));
    } else {
        join_undoes_pieces(t, w, start, i + 1);
    }
}

proof fn join_of_characters(t: Seq<char>, k: int)
    requires
        0 <= k <= t.len(),
    ensures
        join(split(t, Seq::empty()).take(k + 1), Seq::empty()) == t.take(k),
    decreases k,
{
    let parts = split(t, Seq::empty()).take(k + 1);
    if k == 0 {
        assert(parts[0] =~= Seq::<char>::empty());
        assert(t.take(0) =~= Seq::<char>::empty());
    } else {
        join_of_characters(t, k - 1);
        assert(parts.drop_last() =~= split(t, Seq::empty()).take(k));
        assert(parts.last() == seq![t[k - 1]]);
        assert(t.take(k - 1) + Seq::<char>::empty() + seq![t[k - 1]] =~= t.take(k));
    }
}

/// Joining the pieces of a split with the separator gives the text back:
/// replacing a string by itself changes nothing.
pub proof fn join_undoes_split(t: Seq<char>, w: Seq<char>)
    ensures
        join(split(t, w), w) == t,
        replace(t, w, w) == t,
{
    if w.len() == 0 {
        assert(w =~= Seq::<char>::empty());
        let parts = split(t, w);
        assert(parts.len() == t.len() + 2);
        join_of_characters(t, t.len() as int);
        assert(parts.drop_last() =~= parts.take(t.len() as int + 1));
        assert(parts.last() =~= Seq::<char>::empty());
        assert(t.take(t.len() as int) + w + Seq::<char>::empty() =~= t);
    } else {
        join_undoes_pieces(t, w, 0, 0);
        assert(t.subrange(0, t.len() as int) =~= t);
    }
}

/// No piece that `segments` cuts is empty.
pub proof fn segments_are_not_empty(t: Seq<char>, cut: spec_fn(int) -> bool, start: int, i: int)
    requires
        0 <= start <= i,
    ensures
        forall|k: int|
            0 <= k < segments(t, cut, start, i).len() ==> (#[trigger] segments(
                t,
                cut,
                start,
                i,
            )[k]).len() > 0,
    decreases t.len() - i,
{
    let all = segments(t, cut, start, i);
    if i >= t.len() {
        assert forall|k: int| 0 <= k < all.len() implies (#[trigger] all[k]).len() > 0 by {
            assert(all[k] == t.subrange(start, t.len() as int));
        }
    } else if cut(i) {
        segments_are_not_empty(t, cut, i + 1, i + 1);
        let first = piece(t, start, i);
        let rest = segments(t, cut, i + 1, i + 1);
        assert forall|k: int| 0 <= k < all.len() implies (#[trigger] all[k]).len() > 0 by {
            if k < first.len() {
                assert(all[k] == t.subrange(start, i));
            } else {
                assert(all[k] == rest[k - first.len()]);
            }
        }
    } else {
        segments_are_not_empty(t, cut, start, i + 1);
        assert(all == segments(t, cut, start, i + 1));
    }
}

/// No token is empty.
pub proof fn tokens_are_not_empty(s: Seq<char>)
    ensures
        forall|k: int| 0 <= k < tokens(s).len() ==> (#[trigger] tokens(s)[k]).len() > 0,
{
    segments_are_not_empty(collapsed(s), boundary(s), 0, 0);
}

/// A finished engine stays finished and asks nothing.
pub proof fn finished_stays_finished(s: State, reply: Option<ValueView>)
    requires
        s.frames.len() == 0,
    ensures
        step_spec(s, reply).1 == RequestView::Finished,
        step_spec(s, reply).0.frames.len() == 0,
        step_spec(s, reply).0.stack == s.stack,
        step_spec(s, reply).0.memory == s.memory,
        step_spec(s, reply).0.output == s.output,
        step_spec(s, reply).0.log == s.log,
{
}

/// A step that asks a question changes nothing but to remember the
/// question.
pub proof fn asking_changes_nothing(s: State, frame: FrameView)
    requires
        step_frame(s, frame).1 is Ask,
    ensures
        step_frame(s, frame).0.stack == s.stack,
        step_frame(s, frame).0.memory == s.memory,
        step_frame(s, frame).0.output == s.output,
        step_frame(s, frame).0.log == s.log,
        step_frame(s, frame).0.facts == s.facts,
        step_frame(s, frame).0.frames == s.frames.push(frame),
        step_frame(s, frame).0.pending == Some(step_frame(s, frame).1->Ask_0),
{
}

} // verus!
