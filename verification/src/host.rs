//! What the engine asks of its host, and what it keeps of the answers.

use vstd::prelude::*;
use crate::text::{lift, same_text};
use crate::value::{maybe, Value, ValueView};

verus! {

/// The operations on two numbers that the host computes.
#[derive(Debug, Clone, Copy, PartialEq, Eq, Structural)]
pub enum Operator {
    Plus,
    Minus,
    Times,
    Over,
    Remainder,
    Power,
}

/// A question to the host. Numbers go out and come back as numerals.
#[derive(Debug, PartialEq, Eq)]
pub enum Question {
    /// Read a text as a number: the answer is the number, or nothing.
    Parse(Vec<char>),
    /// Compute with two numbers: the answer is a number.
    Calculate(Operator, Vec<char>, Vec<char>),
    /// Round a number to the nearest whole number: the answer is a number.
    Round(Vec<char>),
    /// Is the first number less than the second: the answer is a truth value.
    Less(Vec<char>, Vec<char>),
    /// Show a message and read a line: the answer is a string.
    Prompt(Vec<char>),
    /// The time in seconds: the answer is a number.
    Now,
    /// Wait for so many seconds: the answer is disregarded.
    Sleep(Vec<char>),
}

/// A question as contracts see it.
pub ghost enum QuestionView {
    Parse(Seq<char>),
    Calculate(Operator, Seq<char>, Seq<char>),
    Round(Seq<char>),
    Less(Seq<char>, Seq<char>),
    Prompt(Seq<char>),
    Now,
    Sleep(Seq<char>),
}

impl View for Question {
    type V = QuestionView;

    open spec fn view(&self) -> QuestionView {
        match self {
            Question::Parse(t) => QuestionView::Parse(t@),
            Question::Calculate(o, a, b) => QuestionView::Calculate(*o, a@, b@),
            Question::Round(t) => QuestionView::Round(t@),
            Question::Less(a, b) => QuestionView::Less(a@, b@),
            Question::Prompt(t) => QuestionView::Prompt(t@),
            Question::Now => QuestionView::Now,
            Question::Sleep(t) => QuestionView::Sleep(t@),
        }
    }
}

/// The view of an optional question.
pub open spec fn asked(q: Option<Question>) -> Option<QuestionView> {
    match q {
        Some(x) => Some(x@),
        None => None,
    }
}

/// A question with the answer that the host gave.
#[derive(Debug, PartialEq, Eq)]
pub struct Fact {
    pub question: Question,
    pub answer: Option<Value>,
}

/// A fact as contracts see it.
pub ghost struct FactView {
    pub question: QuestionView,
    pub answer: Option<ValueView>,
}

impl View for Fact {
    type V = FactView;

    open spec fn view(&self) -> FactView {
        FactView { question: self.question@, answer: maybe(self.answer) }
    }
}

/// Where among the facts, from `i` on, `q` is first answered; none where
/// it is not.
pub open spec fn fact_from(facts: Seq<FactView>, q: QuestionView, i: int) -> Option<int>
    decreases facts.len() - i,
{
    if i < 0 || i >= facts.len() {
        None
    } else if facts[i].question == q {
        Some(i)
    } else {
        fact_from(facts, q, i + 1)
    }
}

/// Whether the facts answer `q`.
pub open spec fn answered(facts: Seq<FactView>, q: QuestionView) -> bool {
    fact_from(facts, q, 0) is Some
}

/// The answer that the facts give to `q`; nothing where they give none.
pub open spec fn answer_to(facts: Seq<FactView>, q: QuestionView) -> Option<ValueView> {
    match fact_from(facts, q, 0) {
        Some(i) => facts[i].answer,
        None => None,
    }
}

/// Whether the facts leave a question open: there is one, and they do not
/// answer it.
pub open spec fn open_question(facts: Seq<FactView>, q: Option<QuestionView>) -> bool {
    q is Some && !answered(facts, q->0)
}

/// The answer that the facts give to an optional question.
pub open spec fn answer_for(facts: Seq<FactView>, q: Option<QuestionView>) -> Option<ValueView> {
    match q {
        Some(x) => answer_to(facts, x),
        None => None,
    }
}

/// The numeral in an answer, or `NaN` where the answer is no number.
pub open spec fn number_answer(answer: Option<ValueView>) -> Seq<char> {
    match answer {
        Some(ValueView::Number(t)) => t,
        _ => "NaN"@,
    }
}

/// The string in an answer, or the empty string where the answer is none.
pub open spec fn string_answer(answer: Option<ValueView>) -> Seq<char> {
    match answer {
        Some(ValueView::String(s)) => s,
        _ => Seq::empty(),
    }
}

/// The truth value in an answer, or false where the answer is none.
pub open spec fn truth_answer(answer: Option<ValueView>) -> bool {
    match answer {
        Some(ValueView::Bool(b)) => b,
        _ => false,
    }
}

/// The numeral in an answer, or `NaN` where the answer is no number.
pub fn number_in(answer: &Option<Value>) -> (r: Vec<char>)
    ensures
        r@ == number_answer(maybe(*answer)),
{
    match answer {
        Some(Value::Number(t)) => t.clone(),
        _ => crate::text::text_of("NaN"),
    }
}

/// The string in an answer, or the empty string where the answer is none.
pub fn string_in(answer: &Option<Value>) -> (r: Vec<char>)
    ensures
        r@ == string_answer(maybe(*answer)),
{
    match answer {
        Some(Value::String(t)) => t.clone(),
        _ => Vec::new(),
    }
}

/// The truth value in an answer, or false where the answer is none.
pub fn truth_in(answer: &Option<Value>) -> (r: bool)
    ensures
        r == truth_answer(maybe(*answer)),
{
    match answer {
        Some(Value::Bool(b)) => *b,
        _ => false,
    }
}

impl Question {
    /// Whether two questions ask the same.
    pub fn same(&self, other: &Question) -> (r: bool)
        ensures
            r == (self@ == other@),
    {
        match self {
            Question::Parse(a) => match other {
                Question::Parse(b) => same_text(a, b),
                _ => false,
            },
            Question::Calculate(o, a1, a2) => match other {
                Question::Calculate(p, b1, b2) => *o == *p && same_text(a1, b1) && same_text(
                    a2,
                    b2,
                ),
                _ => false,
            },
            Question::Round(a) => match other {
                Question::Round(b) => same_text(a, b),
                _ => false,
            },
            Question::Less(a1, a2) => match other {
                Question::Less(b1, b2) => same_text(a1, b1) && same_text(a2, b2),
                _ => false,
            },
            Question::Prompt(a) => match other {
                Question::Prompt(b) => same_text(a, b),
                _ => false,
            },
            Question::Now => match other {
                Question::Now => true,
                _ => false,
            },
            Question::Sleep(a) => match other {
                Question::Sleep(b) => same_text(a, b),
                _ => false,
            },
        }
    }

    /// A copy of the question.
    pub fn copy(&self) -> (r: Question)
        ensures
            r@ == self@,
    {
        match self {
            Question::Parse(a) => Question::Parse(a.clone()),
            Question::Calculate(o, a, b) => Question::Calculate(*o, a.clone(), b.clone()),
            Question::Round(a) => Question::Round(a.clone()),
            Question::Less(a, b) => Question::Less(a.clone(), b.clone()),
            Question::Prompt(a) => Question::Prompt(a.clone()),
            Question::Now => Question::Now,
            Question::Sleep(a) => Question::Sleep(a.clone()),
        }
    }
}

/// Looks a question up among the facts.
pub fn find_fact(facts: &Vec<Fact>, q: &Question) -> (r: Option<usize>)
    ensures
        match r {
            Some(i) => fact_from(lift(facts@), q@, 0) == Some(i as int) && i < facts.len(),
            None => fact_from(lift(facts@), q@, 0) is None,
        },
{
    let mut i: usize = 0;
    while i < facts.len()
        invariant
            i <= facts.len(),
            fact_from(lift(facts@), q@, 0) == fact_from(lift(facts@), q@, i as int),
        decreases facts.len() - i,
    {
        if facts[i].question.same(q) {
            return Some(i);
        }
        i = i + 1;
    }
    None
}

/// Whether the facts leave the question open.
pub fn is_open(facts: &Vec<Fact>, q: &Option<Question>) -> (r: bool)
    ensures
        r == open_question(lift(facts@), asked(*q)),
{
    match q {
        Some(x) => find_fact(facts, x).is_none(),
        None => false,
    }
}

/// The answer that the facts give to the question.
pub fn answer_of(facts: &Vec<Fact>, q: &Option<Question>) -> (r: Option<Value>)
    ensures
        maybe(r) == answer_for(lift(facts@), asked(*q)),
{
    match q {
        Some(x) => match find_fact(facts, x) {
            Some(i) => match &facts[i].answer {
                Some(v) => Some(v.copy()),
                None => None,
            },
            None => None,
        },
        None => None,
    }
}

/// What a step of the engine asks of its host.
#[derive(Debug, PartialEq, Eq)]
pub enum Request {
    /// Answer this question and hand the answer to the next step.
    Ask(Question),
    /// Nothing is asked: take the next step.
    Continue,
    /// The program has asked to end the process with this status.
    Exit(i32),
    /// Nothing is left to run.
    Finished,
}

/// A request as contracts see it.
pub ghost enum RequestView {
    Ask(QuestionView),
    Continue,
    Exit(i32),
    Finished,
}

impl View for Request {
    type V = RequestView;

    open spec fn view(&self) -> RequestView {
        match self {
            Request::Ask(q) => RequestView::Ask(q@),
            Request::Continue => RequestView::Continue,
            Request::Exit(n) => RequestView::Exit(*n),
            Request::Finished => RequestView::Finished,
        }
    }
}

} // verus!
