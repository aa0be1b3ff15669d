//! The values of the language and the coercions between their kinds.

use vstd::prelude::*;
use crate::host::{Question, QuestionView};
use crate::numeral::{count_numeral, digits};
use crate::text::{append, append_str, join, join_texts, lift, text_of};

verus! {

/// A value: a number, held as its decimal numeral, a string, a truth value
/// or a list of values.
#[derive(Debug, PartialEq, Eq)]
pub enum Value {
    /// A number as a plain decimal numeral: an optional minus sign, then
    /// `NaN`, `inf`, or digits with an optional fraction.
    Number(Vec<char>),
    String(Vec<char>),
    Bool(bool),
    List(Vec<Value>),
}

/// A value as contracts see it.
pub ghost enum ValueView {
    Number(Seq<char>),
    String(Seq<char>),
    Bool(bool),
    List(Seq<ValueView>),
}

impl View for Value {
    type V = ValueView;

    open spec fn view(&self) -> ValueView
        decreases self,
    {
        match self {
            Value::Number(t) => ValueView::Number(t@),
            Value::String(t) => ValueView::String(t@),
            Value::Bool(b) => ValueView::Bool(*b),
            Value::List(l) => ValueView::List(
                Seq::new(
                    l@.len(),
                    |i: int|
                        if 0 <= i < l@.len() {
                            l@[i]@
                        } else {
                            ValueView::Bool(false)
                        },
                ),
            ),
        }
    }
}

/// The view of a list is the list of its items' views.
pub broadcast proof fn view_of_list(l: Vec<Value>)
    ensures
        #[trigger] Value::List(l)@ == ValueView::List(lift(l@)),
{
    assert(Value::List(l)@->List_0 =~= lift(l@));
}

/// The kinds of value, and `Any` for a place that takes a value as it is.
#[derive(Debug, Clone, Copy, PartialEq, Eq, Structural)]
pub enum Kind {
    Number,
    String,
    Bool,
    List,
    Any,
}

/// The kind of a value.
pub open spec fn kind_of(v: ValueView) -> Kind {
    match v {
        ValueView::Number(_) => Kind::Number,
        ValueView::String(_) => Kind::String,
        ValueView::Bool(_) => Kind::Bool,
        ValueView::List(_) => Kind::List,
    }
}

/// The name by which programs call a kind of value.
pub open spec fn kind_name(k: Kind) -> Seq<char> {
    match k {
        Kind::Number => "number"@,
        Kind::String => "string"@,
        Kind::Bool => "bool"@,
        Kind::List => "list"@,
        Kind::Any => Seq::empty(),
    }
}

/// The kind that a name calls; `Any` where it calls none.
pub open spec fn kind_named(name: Seq<char>) -> Kind {
    if name == "number"@ {
        Kind::Number
    } else if name == "string"@ {
        Kind::String
    } else if name == "bool"@ {
        Kind::Bool
    } else if name == "list"@ {
        Kind::List
    } else {
        Kind::Any
    }
}

/// How a truth value is written.
pub open spec fn truth_text(b: bool) -> Seq<char> {
    if b {
        "true"@
    } else {
        "false"@
    }
}

/// A value as the trace shows it: a string in round brackets, a list in
/// square brackets with a space between its items.
pub open spec fn display(v: ValueView) -> Seq<char>
    decreases v, 0nat,
{
    match v {
        ValueView::Number(t) => t,
        ValueView::String(s) => "("@ + s + ")"@,
        ValueView::Bool(b) => truth_text(b),
        ValueView::List(l) => "["@ + join(shown(l, l.len()), " "@) + "]"@,
    }
}

/// How the first `n` of some values are shown.
pub open spec fn shown(l: Seq<ValueView>, n: nat) -> Seq<Seq<char>>
    decreases l, n,
{
    if n == 0 || n > l.len() {
        Seq::empty()
    } else {
        shown(l, (n - 1) as nat).push(display(l[n - 1]))
    }
}

/// How each of some values is shown.
pub open spec fn displays(l: Seq<ValueView>) -> Seq<Seq<char>> {
    shown(l, l.len())
}

/// What is shown of some values is what is shown of each, in order.
pub proof fn shown_items(l: Seq<ValueView>, n: nat)
    requires
        n <= l.len(),
    ensures
        shown(l, n).len() == n,
        forall|i: int| 0 <= i < n ==> #[trigger] shown(l, n)[i] == display(l[i]),
    decreases n,
{
    if n > 0 {
        shown_items(l, (n - 1) as nat);
    }
}

/// A value as a string: a string is itself, a number its numeral, a truth
/// value its word, a list what the trace shows.
pub open spec fn string_of(v: ValueView) -> Seq<char> {
    match v {
        ValueView::String(s) => s,
        _ => display(v),
    }
}

/// A value as a truth value: a number other than zero, a string or a list
/// that is not empty.
pub open spec fn truth_of(v: ValueView) -> bool {
    match v {
        ValueView::Number(t) => !crate::numeral::is_zero(t),
        ValueView::String(s) => s.len() != 0,
        ValueView::Bool(b) => b,
        ValueView::List(l) => l.len() != 0,
    }
}

/// A value as a list: a list is itself, a string the list of its
/// characters, each a string, and a number or a truth value a list of one.
pub open spec fn list_of(v: ValueView) -> Seq<ValueView> {
    match v {
        ValueView::String(s) => Seq::new(s.len(), |i: int| ValueView::String(seq![s[i]])),
        ValueView::List(l) => l,
        _ => seq![v],
    }
}

/// What the host must be asked before a value can be read as a number:
/// to read a string as a numeral. The other kinds need no help.
pub open spec fn number_question(v: ValueView) -> Option<QuestionView> {
    match v {
        ValueView::String(s) => Some(QuestionView::Parse(s)),
        _ => None,
    }
}

/// The numeral in the host's answer; none where the answer is no number.
pub open spec fn numeral_in(answer: Option<ValueView>) -> Option<Seq<char>> {
    match answer {
        Some(ValueView::Number(t)) => Some(t),
        _ => None,
    }
}

/// A value as a number: a number is itself, a truth value one or zero, a
/// list its length, and a string what the host read in it, or zero where
/// the host found no numeral.
pub open spec fn number_of(v: ValueView, answer: Option<ValueView>) -> Seq<char> {
    match v {
        ValueView::Number(t) => t,
        ValueView::String(_) => match numeral_in(answer) {
            Some(t) => t,
            None => "0"@,
        },
        ValueView::Bool(b) => if b {
            "1"@
        } else {
            "0"@
        },
        ValueView::List(l) => digits(l.len()),
    }
}

/// What the host must be asked before a value can be made of a kind.
pub open spec fn coercion_question(v: ValueView, kind: Kind) -> Option<QuestionView> {
    match kind {
        Kind::Number => number_question(v),
        _ => None,
    }
}

/// A value made of a kind, given the host's answer to the question that
/// the coercion raised, if it raised one.
pub open spec fn coerced(v: ValueView, kind: Kind, answer: Option<ValueView>) -> ValueView {
    match kind {
        Kind::Number => ValueView::Number(number_of(v, answer)),
        Kind::String => ValueView::String(string_of(v)),
        Kind::Bool => ValueView::Bool(truth_of(v)),
        Kind::List => ValueView::List(list_of(v)),
        Kind::Any => v,
    }
}

/// The view of an answer or of an optional value.
pub open spec fn maybe(v: Option<Value>) -> Option<ValueView> {
    match v {
        Some(x) => Some(x@),
        None => None,
    }
}

impl Kind {
    /// The kind that a name calls; `Any` where it calls none.
    pub fn named(name: &Vec<char>) -> (r: Kind)
        ensures
            r == kind_named(name@),
    {
        if crate::text::is_word(name, "number") {
            Kind::Number
        } else if crate::text::is_word(name, "string") {
            Kind::String
        } else if crate::text::is_word(name, "bool") {
            Kind::Bool
        } else if crate::text::is_word(name, "list") {
            Kind::List
        } else {
            Kind::Any
        }
    }

    /// The name by which programs call this kind.
    pub fn name(self) -> (r: Vec<char>)
        ensures
            r@ == kind_name(self),
    {
        match self {
            Kind::Number => text_of("number"),
            Kind::String => text_of("string"),
            Kind::Bool => text_of("bool"),
            Kind::List => text_of("list"),
            Kind::Any => Vec::new(),
        }
    }
}

/// Copies a list of values.
#[verifier::loop_isolation(false)]
pub fn copy_all(l: &Vec<Value>) -> (r: Vec<Value>)
    ensures
        lift(r@) == lift(l@),
    decreases l,
{
    let mut out: Vec<Value> = Vec::new();
    let mut i: usize = 0;
    while i < l.len()
        invariant
            i <= l.len(),
            out@.len() == i,
            forall|j: int| 0 <= j < i ==> out@[j]@ == l@[j]@,
        decreases l.len() - i,
    {
        let item = &l[i];
        out.push(item.copy());
        i = i + 1;
    }
    assert(lift(out@) =~= lift(l@));
    out
}

impl Value {
    /// A string value from a string slice.
    pub fn string(s: &str) -> (r: Value)
        ensures
            r@ == ValueView::String(s@),
    {
        Value::String(text_of(s))
    }

    /// A number from its numeral.
    pub fn number(s: &str) -> (r: Value)
        ensures
            r@ == ValueView::Number(s@),
    {
        Value::Number(text_of(s))
    }

    /// A copy of the value.
    pub fn copy(&self) -> (r: Value)
        ensures
            r@ == self@,
        decreases self,
    {
        broadcast use view_of_list;

        match self {
            Value::Number(t) => Value::Number(t.clone()),
            Value::String(t) => Value::String(t.clone()),
            Value::Bool(b) => Value::Bool(*b),
            Value::List(l) => Value::List(copy_all(l)),
        }
    }

    /// The kind of the value.
    pub fn kind(&self) -> (r: Kind)
        ensures
            r == kind_of(self@),
    {
        match self {
            Value::Number(_) => Kind::Number,
            Value::String(_) => Kind::String,
            Value::Bool(_) => Kind::Bool,
            Value::List(_) => Kind::List,
        }
    }

    /// The value as the trace shows it.
    #[verifier::loop_isolation(false)]
    pub fn display(&self) -> (r: Vec<char>)
        ensures
            r@ == display(self@),
        decreases self,
    {
        broadcast use view_of_list;

        match self {
            Value::Number(t) => t.clone(),
            Value::String(s) => {
                let mut out = text_of("(");
                append(&mut out, s);
                append_str(&mut out, ")");
                out
            },
            Value::Bool(b) => {
                if *b {
                    text_of("true")
                } else {
                    text_of("false")
                }
            },
            Value::List(l) => {
                let mut parts: Vec<Vec<char>> = Vec::new();
                let mut i: usize = 0;
                assert(lift(parts@) =~= shown(lift(l@), 0));
                while i < l.len()
                    invariant
                        i <= l.len(),
                        lift(parts@) == shown(lift(l@), i as nat),
                    decreases l.len() - i,
                {
                    let item = &l[i];
                    let d = item.display();
                    assert(lift(parts@.push(d)) =~= lift(parts@).push(d@));
                    parts.push(d);
                    i = i + 1;
                }
                let mut out = text_of("[");
                let sep = text_of(" ");
                let inner = join_texts(&parts, &sep);
                append(&mut out, &inner);
                append_str(&mut out, "]");
                out
            },
        }
    }

    /// The value as a string.
    pub fn get_string(&self) -> (r: Vec<char>)
        ensures
            r@ == string_of(self@),
    {
        match self {
            Value::String(s) => s.clone(),
            _ => self.display(),
        }
    }

    /// The value as a truth value.
    pub fn get_bool(&self) -> (r: bool)
        ensures
            r == truth_of(self@),
    {
        broadcast use view_of_list;

        match self {
            Value::String(s) => s.len() != 0,
            Value::Number(t) => !crate::numeral::names_zero(t),
            Value::Bool(b) => *b,
            Value::List(l) => l.len() != 0,
        }
    }

    /// The value as a list.
    pub fn get_list(&self) -> (r: Vec<Value>)
        ensures
            lift(r@) == list_of(self@),
    {
        broadcast use view_of_list;

        match self {
            Value::String(s) => {
                let mut out: Vec<Value> = Vec::new();
                let mut i: usize = 0;
                while i < s.len()
                    invariant
                        i <= s.len(),
                        out@.len() == i,
                        forall|j: int| 0 <= j < i ==> out@[j]@ == ValueView::String(seq![s@[j]]),
                    decreases s.len() - i,
                {
                    let mut one: Vec<char> = Vec::new();
                    one.push(s[i]);
                    assert(one@ =~= seq![s@[i as int]]);
                    out.push(Value::String(one));
                    i = i + 1;
                }
                assert(lift(out@) =~= list_of(self@));
                out
            },
            Value::List(l) => copy_all(l),
            _ => {
                let mut out: Vec<Value> = Vec::new();
                out.push(self.copy());
                assert(lift(out@) =~= seq![self@]);
                out
            },
        }
    }

    /// What the host must be asked before the value can be read as a number.
    pub fn number_question(&self) -> (r: Option<Question>)
        ensures
            crate::host::asked(r) == number_question(self@),
    {
        match self {
            Value::String(s) => Some(Question::Parse(s.clone())),
            _ => None,
        }
    }

    /// The value as a number, given the host's answer to
    /// `number_question`, if there was a question.
    pub fn get_number(&self, answer: &Option<Value>) -> (r: Vec<char>)
        ensures
            r@ == number_of(self@, maybe(*answer)),
    {
        broadcast use view_of_list;

        match self {
            Value::String(_) => match answer {
                Some(Value::Number(t)) => t.clone(),
                _ => text_of("0"),
            },
            Value::Number(t) => t.clone(),
            Value::Bool(b) => {
                if *b {
                    text_of("1")
                } else {
                    text_of("0")
                }
            },
            Value::List(l) => count_numeral(l.len()),
        }
    }

    /// What the host must be asked before the value can be made of `kind`.
    pub fn coercion_question(&self, kind: Kind) -> (r: Option<Question>)
        ensures
            crate::host::asked(r) == coercion_question(self@, kind),
    {
        match kind {
            Kind::Number => self.number_question(),
            _ => None,
        }
    }

    /// The value made of `kind`, given the host's answer to
    /// `coercion_question`, if there was a question.
    pub fn coerce(&self, kind: Kind, answer: &Option<Value>) -> (r: Value)
        ensures
            r@ == coerced(self@, kind, maybe(*answer)),
    {
        broadcast use view_of_list;

        match kind {
            Kind::Number => Value::Number(self.get_number(answer)),
            Kind::String => Value::String(self.get_string()),
            Kind::Bool => Value::Bool(self.get_bool()),
            Kind::List => Value::List(self.get_list()),
            Kind::Any => self.copy(),
        }
    }
}

} // verus!
