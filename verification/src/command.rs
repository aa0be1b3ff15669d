//! The commands: what each takes from the stack, what it asks of the host,
//! and what it brings about.

use vstd::prelude::*;
use crate::host::{
    answer_for, answer_of, answer_to, answered, asked, find_fact, is_open, number_answer,
    number_in, open_question, string_answer, string_in, truth_answer, truth_in, Fact, FactView,
    Operator, Question, QuestionView,
};
use crate::numeral::{
    cap, clamp, count_numeral, digits, index_of, integer_digits, integer_numeral, numeral_of,
    status_of, whole, whole_of,
};
use crate::order::{sort_texts, sorted};
use crate::store::{lookup, names, BindingView, Memory};
use crate::syntax::{
    bracketed, has_hash, holds_hash, inner, inner_text, is_bracketed, is_quoted, quoted,
    strip_hash, without_hash,
};
use crate::text::{
    append, append_str, contains, find, is_word, join, join_texts, lift, repeat, repeat_text,
    replace, replace_text, split, split_text, squeeze, squeeze_text, text_of,
};
use crate::value::{
    coerced, coercion_question, kind_name, kind_named, kind_of, list_of, maybe, number_of,
    numeral_in, string_of, truth_of, view_of_list, Kind, Value, ValueView,
};

verus! {

broadcast use view_of_list;

/// The three ways of going through a list with a piece of code.
#[derive(Debug, Clone, Copy, PartialEq, Eq, Structural)]
pub enum Sweep {
    /// `for`: run the code for each item.
    Visit,
    /// `map`: keep what the code leaves for each item.
    Collect,
    /// `filter`: keep the items for which the code leaves a true value.
    Select,
}

/// The commands of the language.
#[derive(Debug, Clone, Copy, PartialEq, Eq, Structural)]
pub enum Command {
    /// `add sub mul div mod pow`: two numbers, the host computes.
    Calculate(Operator),
    /// `round`: a number to the nearest whole number.
    Round,
    /// `and`: whether two values are both true.
    And,
    /// `or`: whether one of two values is true.
    Or,
    /// `not`: whether a value is false.
    Not,
    /// `equal`: whether two values are the same as strings.
    Equal,
    /// `less`: whether a number is less than another.
    Less,
    /// `repeat`: a string so many times over.
    Repeat,
    /// `decode`: the character of a code point.
    Decode,
    /// `encode`: the code point of the first character of a string.
    Encode,
    /// `concat`: two strings, end to end.
    Concat,
    /// `replace`: a string with every occurrence of one string made another.
    Replace,
    /// `split`: the pieces of a string between the occurrences of another.
    Split,
    /// `join`: the items of a list as strings, a separator between them.
    Join,
    /// `find`: whether a string occurs in another.
    Find,
    /// `print`: a line to the output.
    Print,
    /// `input`: a line from the user, after a message.
    Input,
    /// `eval`: runs a string as code.
    Eval,
    /// `if`: runs one of two strings as code.
    If,
    /// `while`: runs a body as long as a condition leaves a true value. The
    /// body lies on top of the stack, the condition below it.
    While,
    /// `exit`: ends the process.
    Exit,
    /// `get`: the item of a list at an index. An index is outside the list
    /// where it is negative or not below the length.
    Get,
    /// `set`: a list with the item at an index replaced.
    Put,
    /// `del`: a list without the item at an index.
    Del,
    /// `append`: a list with one more item at its end.
    Append,
    /// `insert`: a list with one more item at an index. An index beyond
    /// the end of the list is outside it, as for `set`.
    Insert,
    /// `sort`: the items of a list as strings, in ascending order.
    Sort,
    /// `reverse`: a list, last item first.
    Reverse,
    /// `for`, `map`, `filter`: runs a body for each item of a list.
    Each(Sweep),
    /// `range`: the numbers from a minimum up to a maximum, a step apart.
    Range,
    /// `len`: how long a value is.
    Len,
    /// `pop`: takes the top of the stack away.
    Pop,
    /// `size-stack`: the height of the stack.
    SizeStack,
    /// `var`: binds a value to a name.
    Var,
    /// `type`: the name of the kind of a value.
    TypeOf,
    /// `cast`: a value made of the kind that a name calls.
    Cast,
    /// `mem`: the names bound in the store.
    Mem,
    /// `free`: frees a name.
    Free,
    /// `copy`: the top of the stack twice.
    Duplicate,
    /// `swap`: the two topmost values, exchanged.
    Swap,
    /// `now-time`: the time in seconds.
    NowTime,
    /// `sleep`: waits for so many seconds.
    Sleep,
}

/// The command that a word names; none where it names none.
pub open spec fn command_named(name: Seq<char>) -> Option<Command> {
    if name == "add"@ {
        Some(Command::Calculate(Operator::Plus))
    } else if name == "sub"@ {
        Some(Command::Calculate(Operator::Minus))
    } else if name == "mul"@ {
        Some(Command::Calculate(Operator::Times))
    } else if name == "div"@ {
        Some(Command::Calculate(Operator::Over))
    } else if name == "mod"@ {
        Some(Command::Calculate(Operator::Remainder))
    } else if name == "pow"@ {
        Some(Command::Calculate(Operator::Power))
    } else if name == "round"@ {
        Some(Command::Round)
    } else if name == "and"@ {
        Some(Command::And)
    } else if name == "or"@ {
        Some(Command::Or)
    } else if name == "not"@ {
        Some(Command::Not)
    } else if name == "equal"@ {
        Some(Command::Equal)
    } else if name == "less"@ {
        Some(Command::Less)
    } else if name == "repeat"@ {
        Some(Command::Repeat)
    } else if name == "decode"@ {
        Some(Command::Decode)
    } else if name == "encode"@ {
        Some(Command::Encode)
    } else if name == "concat"@ {
        Some(Command::Concat)
    } else if name == "replace"@ {
        Some(Command::Replace)
    } else if name == "split"@ {
        Some(Command::Split)
    } else if name == "join"@ {
        Some(Command::Join)
    } else if name == "find"@ {
        Some(Command::Find)
    } else if name == "print"@ {
        Some(Command::Print)
    } else if name == "input"@ {
        Some(Command::Input)
    } else if name == "eval"@ {
        Some(Command::Eval)
    } else if name == "if"@ {
        Some(Command::If)
    } else if name == "while"@ {
        Some(Command::While)
    } else if name == "exit"@ {
        Some(Command::Exit)
    } else if name == "get"@ {
        Some(Command::Get)
    } else if name == "set"@ {
        Some(Command::Put)
    } else if name == "del"@ {
        Some(Command::Del)
    } else if name == "append"@ {
        Some(Command::Append)
    } else if name == "insert"@ {
        Some(Command::Insert)
    } else if name == "sort"@ {
        Some(Command::Sort)
    } else if name == "reverse"@ {
        Some(Command::Reverse)
    } else if name == "for"@ {
        Some(Command::Each(Sweep::Visit))
    } else if name == "map"@ {
        Some(Command::Each(Sweep::Collect))
    } else if name == "filter"@ {
        Some(Command::Each(Sweep::Select))
    } else if name == "range"@ {
        Some(Command::Range)
    } else if name == "len"@ {
        Some(Command::Len)
    } else if name == "pop"@ {
        Some(Command::Pop)
    } else if name == "size-stack"@ {
        Some(Command::SizeStack)
    } else if name == "var"@ {
        Some(Command::Var)
    } else if name == "type"@ {
        Some(Command::TypeOf)
    } else if name == "cast"@ {
        Some(Command::Cast)
    } else if name == "mem"@ {
        Some(Command::Mem)
    } else if name == "free"@ {
        Some(Command::Free)
    } else if name == "copy"@ {
        Some(Command::Duplicate)
    } else if name == "swap"@ {
        Some(Command::Swap)
    } else if name == "now-time"@ {
        Some(Command::NowTime)
    } else if name == "sleep"@ {
        Some(Command::Sleep)
    } else {
        None
    }
}

/// The kinds that a command wants of its operands, the first taken from
/// the stack first. `cast` wants of its second operand the kind that its
/// first one names: see `wanted`.
pub open spec fn signature(c: Command) -> Seq<Kind> {
    match c {
        Command::Calculate(_) => seq![Kind::Number, Kind::Number],
        Command::Round => seq![Kind::Number],
        Command::And => seq![Kind::Bool, Kind::Bool],
        Command::Or => seq![Kind::Bool, Kind::Bool],
        Command::Not => seq![Kind::Bool],
        Command::Equal => seq![Kind::String, Kind::String],
        Command::Less => seq![Kind::Number, Kind::Number],
        Command::Repeat => seq![Kind::Number, Kind::String],
        Command::Decode => seq![Kind::Number],
        Command::Encode => seq![Kind::String],
        Command::Concat => seq![Kind::String, Kind::String],
        Command::Replace => seq![Kind::String, Kind::String, Kind::String],
        Command::Split => seq![Kind::String, Kind::String],
        Command::Join => seq![Kind::String, Kind::List],
        Command::Find => seq![Kind::String, Kind::String],
        Command::Print => seq![Kind::String],
        Command::Input => seq![Kind::String],
        Command::Eval => seq![Kind::String],
        Command::If => seq![Kind::Bool, Kind::String, Kind::String],
        Command::While => seq![Kind::String, Kind::String],
        Command::Exit => seq![Kind::Number],
        Command::Get => seq![Kind::Number, Kind::List],
        Command::Put => seq![Kind::Any, Kind::Number, Kind::List],
        Command::Del => seq![Kind::Number, Kind::List],
        Command::Append => seq![Kind::Any, Kind::List],
        Command::Insert => seq![Kind::Any, Kind::Number, Kind::List],
        Command::Sort => seq![Kind::List],
        Command::Reverse => seq![Kind::List],
        Command::Each(_) => seq![Kind::String, Kind::String, Kind::List],
        Command::Range => seq![Kind::Number, Kind::Number, Kind::Number],
        Command::Len => seq![Kind::Any],
        Command::Pop => seq![Kind::Any],
        Command::SizeStack => seq![],
        Command::Var => seq![Kind::String, Kind::Any],
        Command::TypeOf => seq![Kind::Any],
        Command::Cast => seq![Kind::String, Kind::Any],
        Command::Mem => seq![],
        Command::Free => seq![Kind::String],
        Command::Duplicate => seq![Kind::Any],
        Command::Swap => seq![Kind::Any, Kind::Any],
        Command::NowTime => seq![],
        Command::Sleep => seq![Kind::Number],
    }
}

/// How many operands a command takes.
pub open spec fn arity(c: Command) -> nat {
    signature(c).len()
}

/// The kind that a command wants of operand `i`, given the operands made
/// ready before it.
pub open spec fn wanted(c: Command, i: int, ready: Seq<ValueView>) -> Kind {
    if c == Command::Cast && i == 1 && ready.len() >= 1 {
        kind_named(string_of(ready[0]))
    } else if 0 <= i < signature(c).len() {
        signature(c)[i]
    } else {
        Kind::Any
    }
}

/// Operand `i` of a stack, the top being operand 0. Where the stack is
/// too short, the operand is the empty string.
pub open spec fn operand(stack: Seq<ValueView>, i: int) -> ValueView {
    if 0 <= i < stack.len() {
        stack[stack.len() - 1 - i]
    } else {
        ValueView::String(Seq::empty())
    }
}

/// Operand `i` as a string.
pub open spec fn txt(a: Seq<ValueView>, i: int) -> Seq<char> {
    string_of(a[i])
}

/// Operand `i` as a numeral.
pub open spec fn num(a: Seq<ValueView>, i: int) -> Seq<char> {
    number_of(a[i], None)
}

/// Operand `i` as a truth value.
pub open spec fn flag(a: Seq<ValueView>, i: int) -> bool {
    truth_of(a[i])
}

/// Operand `i` as a list.
pub open spec fn items(a: Seq<ValueView>, i: int) -> Seq<ValueView> {
    list_of(a[i])
}

/// Operand `i` as a place in a list: the whole part of the number, which a
/// negative number puts before the list and a large one beyond it.
pub open spec fn place(a: Seq<ValueView>, i: int) -> int {
    whole(num(a, i))
}

/// Operand `i` as a count: the whole part of the number, at least zero and
/// at most the largest `usize`.
pub open spec fn count(a: Seq<ValueView>, i: int) -> nat {
    clamp(whole(num(a, i)), 0, usize::MAX as int) as nat
}

/// Operand `i` as a bound of a range: the whole part of the number, kept
/// within 2^64 either way.
pub open spec fn limit(a: Seq<ValueView>, i: int) -> int {
    clamp(whole(num(a, i)), -cap(), cap())
}

/// What a command asks of the host once its operands are ready.
pub open spec fn host_question(c: Command, a: Seq<ValueView>) -> Option<QuestionView> {
    match c {
        Command::Calculate(op) => Some(QuestionView::Calculate(op, num(a, 1), num(a, 0))),
        Command::Round => Some(QuestionView::Round(num(a, 0))),
        Command::Less => Some(QuestionView::Less(num(a, 1), num(a, 0))),
        Command::Input => Some(QuestionView::Prompt(txt(a, 0))),
        Command::NowTime => Some(QuestionView::Now),
        Command::Sleep => Some(QuestionView::Sleep(num(a, 0))),
        _ => None,
    }
}

/// What follows a token in the flow of control.
#[derive(Debug, PartialEq, Eq)]
pub enum Control {
    /// The next token of the program.
    Proceed,
    /// This code, then the next token.
    Run(Vec<char>),
    /// This code, and what it leaves on the stack made one list.
    Gather(Vec<char>),
    /// The first code, and for as long as it leaves a true value, the second.
    Loop(Vec<char>, Vec<char>),
    /// The code, once for each item, the item bound to the name.
    Each(Sweep, Vec<Value>, Vec<char>, Vec<char>),
    /// Nothing: the program ends the process with this status.
    Halt(i32),
}

/// What follows a token, as contracts see it.
pub ghost enum ControlView {
    Proceed,
    Run(Seq<char>),
    Gather(Seq<char>),
    Loop(Seq<char>, Seq<char>),
    Each(Sweep, Seq<ValueView>, Seq<char>, Seq<char>),
    Halt(i32),
}

impl View for Control {
    type V = ControlView;

    open spec fn view(&self) -> ControlView {
        match self {
            Control::Proceed => ControlView::Proceed,
            Control::Run(c) => ControlView::Run(c@),
            Control::Gather(c) => ControlView::Gather(c@),
            Control::Loop(c, b) => ControlView::Loop(c@, b@),
            Control::Each(s, l, n, b) => ControlView::Each(*s, lift(l@), n@, b@),
            Control::Halt(n) => ControlView::Halt(*n),
        }
    }
}

/// What a token does to the variable store.
#[derive(Debug, PartialEq, Eq)]
pub enum Change {
    Keep,
    Bind(Vec<char>, Value),
    Free(Vec<char>),
}

/// A change of the store as contracts see it.
pub ghost enum ChangeView {
    Keep,
    Bind(Seq<char>, ValueView),
    Free(Seq<char>),
}

impl View for Change {
    type V = ChangeView;

    open spec fn view(&self) -> ChangeView {
        match self {
            Change::Keep => ChangeView::Keep,
            Change::Bind(n, v) => ChangeView::Bind(n@, v@),
            Change::Free(n) => ChangeView::Free(n@),
        }
    }
}

/// All that a token brings about: how many operands leave the stack, what
/// is put on it, what is written to the trace and to the output, what
/// happens to the store, and what runs next.
#[derive(Debug, PartialEq, Eq)]
pub struct Effect {
    pub taken: usize,
    pub given: Vec<Value>,
    pub note: Vec<char>,
    pub print: Vec<char>,
    pub change: Change,
    pub control: Control,
}

/// An effect as contracts see it.
pub ghost struct EffectView {
    pub taken: nat,
    pub given: Seq<ValueView>,
    pub note: Seq<char>,
    pub print: Seq<char>,
    pub change: ChangeView,
    pub control: ControlView,
}

impl View for Effect {
    type V = EffectView;

    open spec fn view(&self) -> EffectView {
        EffectView {
            taken: self.taken as nat,
            given: lift(self.given@),
            note: self.note@,
            print: self.print@,
            change: self.change@,
            control: self.control@,
        }
    }
}

/// The effect that only takes and gives values.
pub open spec fn plain(taken: nat, given: Seq<ValueView>) -> EffectView {
    EffectView {
        taken,
        given,
        note: Seq::empty(),
        print: Seq::empty(),
        change: ChangeView::Keep,
        control: ControlView::Proceed,
    }
}

/// An effect with a line for the trace.
pub open spec fn noted(note: Seq<char>, e: EffectView) -> EffectView {
    EffectView { note, ..e }
}

/// An effect with what runs next.
pub open spec fn then_run(control: ControlView, e: EffectView) -> EffectView {
    EffectView { control, ..e }
}

/// The line of the trace for a number that names no character.
pub open spec fn decode_error() -> Seq<char> {
    "エラー! 数値デコードに失敗しました\n"@
}

/// The line of the trace for an empty string that has no first character.
pub open spec fn encode_error() -> Seq<char> {
    "エラー! 文字列のエンコードに失敗しました\n"@
}

/// The line of the trace for an index outside its list.
pub open spec fn range_error() -> Seq<char> {
    "エラー! インデックス指定が範囲外です\n"@
}

/// The line of the trace for a comment.
pub open spec fn comment_line(token: Seq<char>) -> Seq<char> {
    "※ コメント「"@ + without_hash(token) + "」\n"@
}

/// Whether a number is a Unicode scalar value.
pub open spec fn scalar(n: int) -> bool {
    0 <= n < 0xD800 || 0xE000 <= n <= 0x10FFFF
}

/// `char::from_u32` of std gives the character with code point `i`, and
/// nothing where `i` is a surrogate or lies beyond U+10FFFF.
pub assume_specification[ char::from_u32 ](i: u32) -> (r: Option<char>)
    ensures
        r is Some <==> scalar(i as int),
        r is Some ==> r->0 as u32 == i,
;

/// Each of some values as a string.
pub open spec fn strings_of(l: Seq<ValueView>) -> Seq<Seq<char>> {
    Seq::new(l.len(), |i: int| string_of(l[i]))
}

/// Each of some texts as a string value.
pub open spec fn strings(p: Seq<Seq<char>>) -> Seq<ValueView> {
    Seq::new(p.len(), |i: int| ValueView::String(p[i]))
}

/// The whole numbers from `lo` up to, not including, `hi`, `step` apart.
/// A step that is not positive gives none.
pub open spec fn range_items(lo: int, hi: int, step: int) -> Seq<ValueView>
    decreases
            (if hi > lo {
                hi - lo
            } else {
                0
            }),
{
    if step <= 0 || lo >= hi {
        Seq::empty()
    } else {
        seq![ValueView::Number(integer_digits(lo))] + range_items(lo + step, hi, step)
    }
}

/// How long a value is: a list counts its items, a string its
/// characters, anything else is one.
pub open spec fn length_of(v: ValueView) -> Seq<char> {
    match v {
        ValueView::List(l) => digits(l.len()),
        ValueView::String(s) => digits(s.len()),
        _ => "1"@,
    }
}

/// A list with an item put in place of the one at `i`; the list as it is,
/// with a line for the trace, where `i` is outside it.
pub open spec fn with_item(taken: nat, l: Seq<ValueView>, i: int, changed: Seq<ValueView>) -> EffectView {
    if 0 <= i < l.len() {
        plain(taken, seq![ValueView::List(changed)])
    } else {
        noted(range_error(), plain(taken, seq![ValueView::List(l)]))
    }
}

/// What a command brings about, given its operands, made of the kinds it
/// wants, the host's answer to its question, if it has one, the height of
/// the stack and the store.
pub open spec fn outcome(
    c: Command,
    a: Seq<ValueView>,
    answer: Option<ValueView>,
    depth: nat,
    memory: Seq<BindingView>,
) -> EffectView {
    match c {
        Command::Calculate(_) => plain(2, seq![ValueView::Number(number_answer(answer))]),
        Command::Round => plain(1, seq![ValueView::Number(number_answer(answer))]),
        Command::And => plain(2, seq![ValueView::Bool(flag(a, 1) && flag(a, 0))]),
        Command::Or => plain(2, seq![ValueView::Bool(flag(a, 1) || flag(a, 0))]),
        Command::Not => plain(1, seq![ValueView::Bool(!flag(a, 0))]),
        Command::Equal => plain(2, seq![ValueView::Bool(txt(a, 1) == txt(a, 0))]),
        Command::Less => plain(2, seq![ValueView::Bool(truth_answer(answer))]),
        Command::Repeat => plain(2, seq![ValueView::String(repeat(txt(a, 1), count(a, 0)))]),
        Command::Decode => {
            if scalar(place(a, 0)) {
                plain(1, seq![ValueView::String(seq![place(a, 0) as char])])
            } else {
                noted(decode_error(), plain(1, seq![ValueView::Number(num(a, 0))]))
            }
        },
        Command::Encode => if txt(a, 0).len() > 0 {
            plain(1, seq![ValueView::Number(digits(txt(a, 0)[0] as u32 as nat))])
        } else {
            noted(encode_error(), plain(1, seq![ValueView::String(txt(a, 0))]))
        },
        Command::Concat => plain(2, seq![ValueView::String(txt(a, 1) + txt(a, 0))]),
        Command::Replace => plain(
            3,
            seq![ValueView::String(replace(txt(a, 2), txt(a, 1), txt(a, 0)))],
        ),
        Command::Split => plain(2, seq![ValueView::List(strings(split(txt(a, 1), txt(a, 0))))]),
        Command::Join => plain(
            2,
            seq![ValueView::String(join(strings_of(items(a, 1)), txt(a, 0)))],
        ),
        Command::Find => plain(2, seq![ValueView::Bool(contains(txt(a, 1), txt(a, 0)))]),
        Command::Print => EffectView { print: txt(a, 0) + "\n"@, ..plain(1, seq![]) },
        Command::Input => plain(1, seq![ValueView::String(string_answer(answer))]),
        Command::Eval => then_run(ControlView::Run(txt(a, 0)), plain(1, seq![])),
        Command::If => then_run(
            ControlView::Run(
                if flag(a, 0) {
                    txt(a, 2)
                } else {
                    txt(a, 1)
                },
            ),
            plain(3, seq![]),
        ),
        Command::While => then_run(ControlView::Loop(txt(a, 1), txt(a, 0)), plain(2, seq![])),
        Command::Exit => then_run(
            ControlView::Halt(clamp(whole(num(a, 0)), i32::MIN as int, i32::MAX as int) as i32),
            plain(1, seq![]),
        ),
        Command::Get => if 0 <= place(a, 0) < items(a, 1).len() {
            plain(2, seq![items(a, 1)[place(a, 0)]])
        } else {
            noted(range_error(), plain(2, seq![ValueView::List(items(a, 1))]))
        },
        Command::Put => with_item(
            3,
            items(a, 2),
            place(a, 1),
            items(a, 2).update(place(a, 1), a[0]),
        ),
        Command::Del => with_item(2, items(a, 1), place(a, 0), items(a, 1).remove(place(a, 0))),
        Command::Append => plain(2, seq![ValueView::List(items(a, 1).push(a[0]))]),
        Command::Insert => if 0 <= place(a, 1) <= items(a, 2).len() {
            plain(3, seq![ValueView::List(items(a, 2).insert(place(a, 1), a[0]))])
        } else {
            noted(range_error(), plain(3, seq![ValueView::List(items(a, 2))]))
        },
        Command::Sort => plain(1, seq![ValueView::List(strings(sorted(strings_of(items(a, 0)))))]),
        Command::Reverse => plain(1, seq![ValueView::List(items(a, 0).reverse())]),
        Command::Each(sweep) => then_run(
            ControlView::Each(sweep, items(a, 2), txt(a, 1), txt(a, 0)),
            plain(3, seq![]),
        ),
        Command::Range => plain(
            3,
            seq![ValueView::List(range_items(limit(a, 2), limit(a, 1), limit(a, 0)))],
        ),
        Command::Len => plain(1, seq![ValueView::Number(length_of(a[0]))]),
        Command::Pop => plain(1, seq![]),
        Command::SizeStack => plain(0, seq![ValueView::Number(digits(depth))]),
        Command::Var => EffectView { change: ChangeView::Bind(txt(a, 0), a[1]), ..plain(2, seq![]) },
        Command::TypeOf => plain(1, seq![ValueView::String(kind_name(kind_of(a[0])))]),
        Command::Cast => plain(2, seq![a[1]]),
        Command::Mem => plain(0, seq![ValueView::List(names(memory))]),
        Command::Free => EffectView { change: ChangeView::Free(txt(a, 0)), ..plain(1, seq![]) },
        Command::Duplicate => plain(1, seq![a[0], a[0]]),
        Command::Swap => plain(2, seq![a[0], a[1]]),
        Command::NowTime => plain(0, seq![ValueView::Number(number_answer(answer))]),
        Command::Sleep => plain(1, seq![]),
    }
}

/// The first `n` operands made ready: each made of the kind the command
/// wants, with the host's help where the facts hold it. The question that
/// the facts leave open, where they leave one.
pub open spec fn ready(c: Command, stack: Seq<ValueView>, facts: Seq<FactView>, n: nat) -> Result<
    Seq<ValueView>,
    QuestionView,
>
    decreases n,
{
    if n == 0 {
        Ok(Seq::empty())
    } else {
        match ready(c, stack, facts, (n - 1) as nat) {
            Err(q) => Err(q),
            Ok(a) => {
                let v = operand(stack, n - 1);
                let kind = wanted(c, n - 1, a);
                let q = coercion_question(v, kind);
                if open_question(facts, q) {
                    Err(q->0)
                } else {
                    Ok(a.push(coerced(v, kind, answer_for(facts, q))))
                }
            },
        }
    }
}

/// What a command brings about on a stack and a store, as far as the
/// facts reach: the effect, or the first question that they leave open.
pub open spec fn command_plan(
    c: Command,
    stack: Seq<ValueView>,
    memory: Seq<BindingView>,
    facts: Seq<FactView>,
) -> Result<EffectView, QuestionView> {
    match ready(c, stack, facts, arity(c)) {
        Err(q) => Err(q),
        Ok(a) => {
            let q = host_question(c, a);
            if open_question(facts, q) {
                Err(q->0)
            } else {
                Ok(outcome(c, a, answer_for(facts, q), stack.len(), memory))
            }
        },
    }
}

/// What a token brings about on a stack and a store, as far as the facts
/// reach. The first of these that fits decides: a number is put on the
/// stack; so are `true` and `false`; so is the text of a string in round
/// brackets; a list in square brackets has its inside run; the value of a
/// bound name is put on the stack; a token with a `#` is a comment; a
/// command is carried out; any other word is a string.
///
/// No numeral begins with a bracket, so a string in round brackets and a
/// list in square brackets are known for what they are without the host;
/// of every other token the host is asked first whether it is a number.
///
/// The inside of a list is run with every run of white space made one
/// space: a string in a list keeps no wider gaps.
pub open spec fn token_plan(
    token: Seq<char>,
    stack: Seq<ValueView>,
    memory: Seq<BindingView>,
    facts: Seq<FactView>,
) -> Result<EffectView, QuestionView> {
    let q = QuestionView::Parse(token);
    if quoted(token) {
        Ok(plain(0, seq![ValueView::String(inner(token))]))
    } else if bracketed(token) {
        Ok(then_run(ControlView::Gather(squeeze(inner(token))), plain(0, seq![])))
    } else if !answered(facts, q) {
        Err(q)
    } else if numeral_in(answer_to(facts, q)) is Some {
        Ok(plain(0, seq![ValueView::Number(numeral_in(answer_to(facts, q))->0)]))
    } else if token == "true"@ {
        Ok(plain(0, seq![ValueView::Bool(true)]))
    } else if token == "false"@ {
        Ok(plain(0, seq![ValueView::Bool(false)]))
    } else if lookup(memory, token) is Some {
        Ok(plain(0, seq![lookup(memory, token)->0]))
    } else if has_hash(token) {
        Ok(noted(comment_line(token), plain(0, seq![])))
    } else {
        match command_named(token) {
            Some(c) => command_plan(c, stack, memory, facts),
            None => Ok(plain(0, seq![ValueView::String(token)])),
        }
    }
}

/// Once a question is open, making more operands ready changes nothing.
pub proof fn ready_stays_open(
    c: Command,
    stack: Seq<ValueView>,
    facts: Seq<FactView>,
    m: nat,
    n: nat,
)
    requires
        m <= n,
        ready(c, stack, facts, m) is Err,
    ensures
        ready(c, stack, facts, n) == ready(c, stack, facts, m),
    decreases n,
{
    if m < n {
        ready_stays_open(c, stack, facts, m, (n - 1) as nat);
    }
}

/// The view of a plan.
pub open spec fn planned(r: Result<Effect, Question>) -> Result<EffectView, QuestionView> {
    match r {
        Ok(e) => Ok(e@),
        Err(q) => Err(q@),
    }
}

fn kinds1(a: Kind) -> (r: Vec<Kind>)
    ensures
        r@ == seq![a],
{
    let mut v: Vec<Kind> = Vec::new();
    v.push(a);
    assert(v@ =~= seq![a]);
    v
}

fn kinds2(a: Kind, b: Kind) -> (r: Vec<Kind>)
    ensures
        r@ == seq![a, b],
{
    let mut v: Vec<Kind> = Vec::new();
    v.push(a);
    v.push(b);
    assert(v@ =~= seq![a, b]);
    v
}

fn kinds3(a: Kind, b: Kind, c: Kind) -> (r: Vec<Kind>)
    ensures
        r@ == seq![a, b, c],
{
    let mut v: Vec<Kind> = Vec::new();
    v.push(a);
    v.push(b);
    v.push(c);
    assert(v@ =~= seq![a, b, c]);
    v
}

fn no_values() -> (r: Vec<Value>)
    ensures
        lift(r@) == Seq::<ValueView>::empty(),
{
    let v: Vec<Value> = Vec::new();
    assert(lift(v@) =~= Seq::<ValueView>::empty());
    v
}

fn one(a: Value) -> (r: Vec<Value>)
    ensures
        lift(r@) == seq![a@],
{
    let mut v: Vec<Value> = Vec::new();
    v.push(a);
    assert(lift(v@) =~= seq![a@]);
    v
}

fn two(a: Value, b: Value) -> (r: Vec<Value>)
    ensures
        lift(r@) == seq![a@, b@],
{
    let mut v: Vec<Value> = Vec::new();
    v.push(a);
    v.push(b);
    assert(lift(v@) =~= seq![a@, b@]);
    v
}

fn txt_arg(a: &Vec<Value>, i: usize) -> (r: Vec<char>)
    requires
        i < a.len(),
    ensures
        r@ == txt(lift(a@), i as int),
{
    a[i].get_string()
}

fn num_arg(a: &Vec<Value>, i: usize) -> (r: Vec<char>)
    requires
        i < a.len(),
    ensures
        r@ == num(lift(a@), i as int),
{
    a[i].get_number(&None)
}

fn flag_arg(a: &Vec<Value>, i: usize) -> (r: bool)
    requires
        i < a.len(),
    ensures
        r == flag(lift(a@), i as int),
{
    a[i].get_bool()
}

fn items_arg(a: &Vec<Value>, i: usize) -> (r: Vec<Value>)
    requires
        i < a.len(),
    ensures
        lift(r@) == items(lift(a@), i as int),
{
    a[i].get_list()
}

fn count_arg(a: &Vec<Value>, i: usize) -> (r: usize)
    requires
        i < a.len(),
    ensures
        r == count(lift(a@), i as int),
{
    let n = num_arg(a, i);
    index_of(&n)
}

fn limit_arg(a: &Vec<Value>, i: usize) -> (r: i128)
    requires
        i < a.len(),
    ensures
        r == limit(lift(a@), i as int),
{
    let n = num_arg(a, i);
    whole_of(&n)
}

/// Operand `i` as a place among `len` items or at their end; none where
/// it lies before or beyond.
fn place_arg(a: &Vec<Value>, i: usize, len: usize) -> (r: Option<usize>)
    requires
        i < a.len(),
    ensures
        r is Some <==> 0 <= place(lift(a@), i as int) <= len,
        r is Some ==> r->0 == place(lift(a@), i as int),
{
    let p = limit_arg(a, i);
    if 0 <= p && p <= len as i128 {
        Some(p as usize)
    } else {
        None
    }
}

fn value_arg(a: &Vec<Value>, i: usize) -> (r: Value)
    requires
        i < a.len(),
    ensures
        r@ == lift(a@)[i as int],
{
    a[i].copy()
}

/// Each of some values as a string.
fn texts_of(l: &Vec<Value>) -> (r: Vec<Vec<char>>)
    ensures
        lift(r@) == strings_of(lift(l@)),
{
    let mut out: Vec<Vec<char>> = Vec::new();
    let mut i: usize = 0;
    while i < l.len()
        invariant
            i <= l.len(),
            out@.len() == i,
            forall|j: int| 0 <= j < i ==> out@[j]@ == string_of(l@[j]@),
        decreases l.len() - i,
    {
        out.push(l[i].get_string());
        i = i + 1;
    }
    assert(lift(out@) =~= strings_of(lift(l@)));
    out
}

/// Each of some texts as a string value.
fn as_strings(p: Vec<Vec<char>>) -> (r: Vec<Value>)
    ensures
        lift(r@) == strings(lift(p@)),
{
    let mut out: Vec<Value> = Vec::new();
    let mut i: usize = 0;
    while i < p.len()
        invariant
            i <= p.len(),
            out@.len() == i,
            forall|j: int| 0 <= j < i ==> out@[j]@ == ValueView::String(p@[j]@),
        decreases p.len() - i,
    {
        out.push(Value::String(p[i].clone()));
        i = i + 1;
    }
    assert(lift(out@) =~= strings(lift(p@)));
    out
}

/// The items of a list, last first.
fn reversed(l: &Vec<Value>) -> (r: Vec<Value>)
    ensures
        lift(r@) == lift(l@).reverse(),
{
    let mut out: Vec<Value> = Vec::new();
    let mut i: usize = l.len();
    while i > 0
        invariant
            i <= l.len(),
            out@.len() == l.len() - i,
            forall|j: int| 0 <= j < out@.len() ==> out@[j]@ == l@[l.len() - 1 - j]@,
        decreases i,
    {
        i = i - 1;
        out.push(l[i].copy());
    }
    assert(lift(out@) =~= lift(l@).reverse());
    out
}

/// The whole numbers from `lo` up to, not including, `hi`, `step` apart.
fn range_list(lo: i128, hi: i128, step: i128) -> (r: Vec<Value>)
    requires
        -cap() <= lo <= cap(),
        -cap() <= hi <= cap(),
        step <= cap(),
    ensures
        lift(r@) == range_items(lo as int, hi as int, step as int),
{
    let mut out: Vec<Value> = Vec::new();
    if step <= 0 {
        assert(lift(out@) =~= Seq::<ValueView>::empty());
        return out;
    }
    let mut i: i128 = lo;
    assert(lift(out@) + range_items(lo as int, hi as int, step as int) =~= range_items(
        lo as int,
        hi as int,
        step as int,
    ));
    while i < hi
        invariant
            0 < step <= cap(),
            -cap() <= lo <= i,
            i <= cap(),
            hi <= cap(),
            lift(out@) + range_items(i as int, hi as int, step as int) == range_items(
                lo as int,
                hi as int,
                step as int,
            ),
        decreases hi - i,
    {
        let item = Value::Number(integer_numeral(i));
        proof {
            let rest = range_items(i + step, hi as int, step as int);
            assert(lift(out@.push(item)) =~= lift(out@) + seq![item@]);
            assert(lift(out@) + (seq![item@] + rest) =~= lift(out@) + seq![item@] + rest);
        }
        out.push(item);
        if hi - i <= step {
            assert(range_items(i + step, hi as int, step as int) =~= Seq::<ValueView>::empty());
            i = hi;
        } else {
            i = i + step;
        }
    }
    assert(lift(out@) + Seq::<ValueView>::empty() =~= lift(out@));
    out
}

impl Effect {
    /// The effect that only takes and gives values.
    pub fn plain(taken: usize, given: Vec<Value>) -> (r: Effect)
        ensures
            r@ == plain(taken as nat, lift(given@)),
    {
        Effect {
            taken,
            given,
            note: Vec::new(),
            print: Vec::new(),
            change: Change::Keep,
            control: Control::Proceed,
        }
    }

    /// The effect that takes values and says what runs next.
    fn followed(taken: usize, control: Control) -> (r: Effect)
        ensures
            r@ == then_run(control@, plain(taken as nat, Seq::empty())),
    {
        Effect {
            taken,
            given: no_values(),
            note: Vec::new(),
            print: Vec::new(),
            change: Change::Keep,
            control,
        }
    }

    /// The effect that takes values and changes the store.
    fn changing(taken: usize, change: Change) -> (r: Effect)
        ensures
            r@ == (EffectView { change: change@, ..plain(taken as nat, Seq::empty()) }),
    {
        Effect {
            taken,
            given: no_values(),
            note: Vec::new(),
            print: Vec::new(),
            change,
            control: Control::Proceed,
        }
    }

    /// The effect that gives a number back as it was, with a line for the
    /// trace about a number that names no character.
    fn not_decoded(n: Vec<char>) -> (r: Effect)
        ensures
            r@ == noted(decode_error(), plain(1, seq![ValueView::Number(n@)])),
    {
        let mut e = Effect::plain(1, one(Value::Number(n)));
        e.note = text_of("エラー! 数値デコードに失敗しました\n");
        e
    }

    /// The effect that gives a list back as it was, with a line for the
    /// trace about an index outside it.
    fn out_of_range(taken: usize, l: Vec<Value>) -> (r: Effect)
        ensures
            r@ == noted(range_error(), plain(taken as nat, seq![ValueView::List(lift(l@))])),
    {
        let mut e = Effect::plain(taken, one(Value::List(l)));
        e.note = text_of("エラー! インデックス指定が範囲外です\n");
        e
    }
}

impl Command {
    /// The command that a word names; none where it names none.
    pub fn named(name: &Vec<char>) -> (r: Option<Command>)
        ensures
            r == command_named(name@),
    {
        if is_word(name, "add") {
            Some(Command::Calculate(Operator::Plus))
        } else if is_word(name, "sub") {
            Some(Command::Calculate(Operator::Minus))
        } else if is_word(name, "mul") {
            Some(Command::Calculate(Operator::Times))
        } else if is_word(name, "div") {
            Some(Command::Calculate(Operator::Over))
        } else if is_word(name, "mod") {
            Some(Command::Calculate(Operator::Remainder))
        } else if is_word(name, "pow") {
            Some(Command::Calculate(Operator::Power))
        } else if is_word(name, "round") {
            Some(Command::Round)
        } else if is_word(name, "and") {
            Some(Command::And)
        } else if is_word(name, "or") {
            Some(Command::Or)
        } else if is_word(name, "not") {
            Some(Command::Not)
        } else if is_word(name, "equal") {
            Some(Command::Equal)
        } else if is_word(name, "less") {
            Some(Command::Less)
        } else if is_word(name, "repeat") {
            Some(Command::Repeat)
        } else if is_word(name, "decode") {
            Some(Command::Decode)
        } else if is_word(name, "encode") {
            Some(Command::Encode)
        } else if is_word(name, "concat") {
            Some(Command::Concat)
        } else if is_word(name, "replace") {
            Some(Command::Replace)
        } else if is_word(name, "split") {
            Some(Command::Split)
        } else if is_word(name, "join") {
            Some(Command::Join)
        } else if is_word(name, "find") {
            Some(Command::Find)
        } else if is_word(name, "print") {
            Some(Command::Print)
        } else if is_word(name, "input") {
            Some(Command::Input)
        } else if is_word(name, "eval") {
            Some(Command::Eval)
        } else if is_word(name, "if") {
            Some(Command::If)
        } else if is_word(name, "while") {
            Some(Command::While)
        } else if is_word(name, "exit") {
            Some(Command::Exit)
        } else if is_word(name, "get") {
            Some(Command::Get)
        } else if is_word(name, "set") {
            Some(Command::Put)
        } else if is_word(name, "del") {
            Some(Command::Del)
        } else if is_word(name, "append") {
            Some(Command::Append)
        } else if is_word(name, "insert") {
            Some(Command::Insert)
        } else if is_word(name, "sort") {
            Some(Command::Sort)
        } else if is_word(name, "reverse") {
            Some(Command::Reverse)
        } else if is_word(name, "for") {
            Some(Command::Each(Sweep::Visit))
        } else if is_word(name, "map") {
            Some(Command::Each(Sweep::Collect))
        } else if is_word(name, "filter") {
            Some(Command::Each(Sweep::Select))
        } else if is_word(name, "range") {
            Some(Command::Range)
        } else if is_word(name, "len") {
            Some(Command::Len)
        } else if is_word(name, "pop") {
            Some(Command::Pop)
        } else if is_word(name, "size-stack") {
            Some(Command::SizeStack)
        } else if is_word(name, "var") {
            Some(Command::Var)
        } else if is_word(name, "type") {
            Some(Command::TypeOf)
        } else if is_word(name, "cast") {
            Some(Command::Cast)
        } else if is_word(name, "mem") {
            Some(Command::Mem)
        } else if is_word(name, "free") {
            Some(Command::Free)
        } else if is_word(name, "copy") {
            Some(Command::Duplicate)
        } else if is_word(name, "swap") {
            Some(Command::Swap)
        } else if is_word(name, "now-time") {
            Some(Command::NowTime)
        } else if is_word(name, "sleep") {
            Some(Command::Sleep)
        } else {
            None
        }
    }

    /// The kinds that the command wants of its operands.
    pub fn signature(self) -> (r: Vec<Kind>)
        ensures
            r@ == signature(self),
    {
        match self {
            Command::Calculate(_) => kinds2(Kind::Number, Kind::Number),
            Command::Round => kinds1(Kind::Number),
            Command::And => kinds2(Kind::Bool, Kind::Bool),
            Command::Or => kinds2(Kind::Bool, Kind::Bool),
            Command::Not => kinds1(Kind::Bool),
            Command::Equal => kinds2(Kind::String, Kind::String),
            Command::Less => kinds2(Kind::Number, Kind::Number),
            Command::Repeat => kinds2(Kind::Number, Kind::String),
            Command::Decode => kinds1(Kind::Number),
            Command::Encode => kinds1(Kind::String),
            Command::Concat => kinds2(Kind::String, Kind::String),
            Command::Replace => kinds3(Kind::String, Kind::String, Kind::String),
            Command::Split => kinds2(Kind::String, Kind::String),
            Command::Join => kinds2(Kind::String, Kind::List),
            Command::Find => kinds2(Kind::String, Kind::String),
            Command::Print => kinds1(Kind::String),
            Command::Input => kinds1(Kind::String),
            Command::Eval => kinds1(Kind::String),
            Command::If => kinds3(Kind::Bool, Kind::String, Kind::String),
            Command::While => kinds2(Kind::String, Kind::String),
            Command::Exit => kinds1(Kind::Number),
            Command::Get => kinds2(Kind::Number, Kind::List),
            Command::Put => kinds3(Kind::Any, Kind::Number, Kind::List),
            Command::Del => kinds2(Kind::Number, Kind::List),
            Command::Append => kinds2(Kind::Any, Kind::List),
            Command::Insert => kinds3(Kind::Any, Kind::Number, Kind::List),
            Command::Sort => kinds1(Kind::List),
            Command::Reverse => kinds1(Kind::List),
            Command::Each(_) => kinds3(Kind::String, Kind::String, Kind::List),
            Command::Range => kinds3(Kind::Number, Kind::Number, Kind::Number),
            Command::Len => kinds1(Kind::Any),
            Command::Pop => kinds1(Kind::Any),
            Command::SizeStack => Vec::new(),
            Command::Var => kinds2(Kind::String, Kind::Any),
            Command::TypeOf => kinds1(Kind::Any),
            Command::Cast => kinds2(Kind::String, Kind::Any),
            Command::Mem => Vec::new(),
            Command::Free => kinds1(Kind::String),
            Command::Duplicate => kinds1(Kind::Any),
            Command::Swap => kinds2(Kind::Any, Kind::Any),
            Command::NowTime => Vec::new(),
            Command::Sleep => kinds1(Kind::Number),
        }
    }

    /// The kind that the command wants of operand `i`, given the operands
    /// made ready before it.
    pub fn wanted(self, i: usize, ready: &Vec<Value>) -> (r: Kind)
        ensures
            r == wanted(self, i as int, lift(ready@)),
    {
        let cast = match self {
            Command::Cast => true,
            _ => false,
        };
        if cast && i == 1 && ready.len() >= 1 {
            let name = ready[0].get_string();
            Kind::named(&name)
        } else {
            let sig = self.signature();
            if i < sig.len() {
                sig[i]
            } else {
                Kind::Any
            }
        }
    }

    /// What the command asks of the host once its operands are ready.
    pub fn host_question(self, a: &Vec<Value>) -> (r: Option<Question>)
        requires
            a.len() == arity(self),
        ensures
            asked(r) == host_question(self, lift(a@)),
    {
        match self {
            Command::Calculate(op) => Some(Question::Calculate(op, num_arg(a, 1), num_arg(a, 0))),
            Command::Round => Some(Question::Round(num_arg(a, 0))),
            Command::Less => Some(Question::Less(num_arg(a, 1), num_arg(a, 0))),
            Command::Input => Some(Question::Prompt(txt_arg(a, 0))),
            Command::NowTime => Some(Question::Now),
            Command::Sleep => Some(Question::Sleep(num_arg(a, 0))),
            _ => None,
        }
    }

    /// What the command brings about, given its operands, the host's
    /// answer to its question, the height of the stack and the store.
    pub fn outcome(
        self,
        a: &Vec<Value>,
        answer: &Option<Value>,
        depth: usize,
        memory: &Memory,
    ) -> (r: Effect)
        requires
            a.len() == arity(self),
        ensures
            r@ == outcome(self, lift(a@), maybe(*answer), depth as nat, memory@),
    {
        match self {
            Command::Calculate(_) => Effect::plain(2, one(Value::Number(number_in(answer)))),
            Command::Round => Effect::plain(1, one(Value::Number(number_in(answer)))),
            Command::And => {
                let x = flag_arg(a, 1);
                let y = flag_arg(a, 0);
                Effect::plain(2, one(Value::Bool(x && y)))
            },
            Command::Or => {
                let x = flag_arg(a, 1);
                let y = flag_arg(a, 0);
                Effect::plain(2, one(Value::Bool(x || y)))
            },
            Command::Not => Effect::plain(1, one(Value::Bool(!flag_arg(a, 0)))),
            Command::Equal => {
                let x = txt_arg(a, 1);
                let y = txt_arg(a, 0);
                Effect::plain(2, one(Value::Bool(crate::text::same_text(&x, &y))))
            },
            Command::Less => Effect::plain(2, one(Value::Bool(truth_in(answer)))),
            Command::Repeat => {
                let count = count_arg(a, 0);
                let text = txt_arg(a, 1);
                Effect::plain(2, one(Value::String(repeat_text(&text, count))))
            },
            Command::Decode => {
                let n = num_arg(a, 0);
                let code = whole_of(&n);
                if 0 <= code && code <= 0x10FFFF {
                    match char::from_u32(code as u32) {
                        Some(c) => {
                            let mut t: Vec<char> = Vec::new();
                            t.push(c);
                            proof {
                                crate::text::code_names_char(c);
                            }
                            assert(t@ =~= seq![code as char]);
                            Effect::plain(1, one(Value::String(t)))
                        },
                        None => Effect::not_decoded(n),
                    }
                } else {
                    Effect::not_decoded(n)
                }
            },
            Command::Encode => {
                let t = txt_arg(a, 0);
                if t.len() > 0 {
                    let code: u32 = t[0] as u32;
                    Effect::plain(1, one(Value::Number(numeral_of(code as u64))))
                } else {
                    let mut e = Effect::plain(1, one(Value::String(t)));
                    e.note = text_of("エラー! 文字列のエンコードに失敗しました\n");
                    e
                }
            },
            Command::Concat => {
                let mut x = txt_arg(a, 1);
                let y = txt_arg(a, 0);
                append(&mut x, &y);
                Effect::plain(2, one(Value::String(x)))
            },
            Command::Replace => {
                let after = txt_arg(a, 0);
                let before = txt_arg(a, 1);
                let text = txt_arg(a, 2);
                Effect::plain(3, one(Value::String(replace_text(&text, &before, &after))))
            },
            Command::Split => {
                let key = txt_arg(a, 0);
                let text = txt_arg(a, 1);
                Effect::plain(2, one(Value::List(as_strings(split_text(&text, &key)))))
            },
            Command::Join => {
                let key = txt_arg(a, 0);
                let list = items_arg(a, 1);
                let parts = texts_of(&list);
                Effect::plain(2, one(Value::String(join_texts(&parts, &key))))
            },
            Command::Find => {
                let word = txt_arg(a, 0);
                let text = txt_arg(a, 1);
                Effect::plain(2, one(Value::Bool(find(&text, &word))))
            },
            Command::Print => {
                let mut e = Effect::plain(1, no_values());
                let mut line = txt_arg(a, 0);
                append_str(&mut line, "\n");
                e.print = line;
                e
            },
            Command::Input => Effect::plain(1, one(Value::String(string_in(answer)))),
            Command::Eval => Effect::followed(1, Control::Run(txt_arg(a, 0))),
            Command::If => {
                let code = if flag_arg(a, 0) {
                    txt_arg(a, 2)
                } else {
                    txt_arg(a, 1)
                };
                Effect::followed(3, Control::Run(code))
            },
            Command::While => Effect::followed(2, Control::Loop(txt_arg(a, 1), txt_arg(a, 0))),
            Command::Exit => {
                let n = num_arg(a, 0);
                Effect::followed(1, Control::Halt(status_of(&n)))
            },
            Command::Get => {
                let list = items_arg(a, 1);
                match place_arg(a, 0, list.len()) {
                    Some(i) => {
                        if i < list.len() {
                            Effect::plain(2, one(list[i].copy()))
                        } else {
                            Effect::out_of_range(2, list)
                        }
                    },
                    None => Effect::out_of_range(2, list),
                }
            },
            Command::Put => {
                let value = value_arg(a, 0);
                let mut list = items_arg(a, 2);
                match place_arg(a, 1, list.len()) {
                    Some(i) => {
                        if i < list.len() {
                            let ghost before = lift(list@);
                            list.set(i, value);
                            assert(lift(list@) =~= before.update(i as int, lift(a@)[0]));
                            Effect::plain(3, one(Value::List(list)))
                        } else {
                            Effect::out_of_range(3, list)
                        }
                    },
                    None => Effect::out_of_range(3, list),
                }
            },
            Command::Del => {
                let mut list = items_arg(a, 1);
                match place_arg(a, 0, list.len()) {
                    Some(i) => {
                        if i < list.len() {
                            let ghost before = lift(list@);
                            list.remove(i);
                            assert(lift(list@) =~= before.remove(i as int));
                            Effect::plain(2, one(Value::List(list)))
                        } else {
                            Effect::out_of_range(2, list)
                        }
                    },
                    None => Effect::out_of_range(2, list),
                }
            },
            Command::Append => {
                let value = value_arg(a, 0);
                let mut list = items_arg(a, 1);
                let ghost before = lift(list@);
                list.push(value);
                assert(lift(list@) =~= before.push(lift(a@)[0]));
                Effect::plain(2, one(Value::List(list)))
            },
            Command::Insert => {
                let value = value_arg(a, 0);
                let mut list = items_arg(a, 2);
                match place_arg(a, 1, list.len()) {
                    Some(i) => {
                        let ghost before = lift(list@);
                        list.insert(i, value);
                        assert(lift(list@) =~= before.insert(i as int, lift(a@)[0]));
                        Effect::plain(3, one(Value::List(list)))
                    },
                    None => Effect::out_of_range(3, list),
                }
            },
            Command::Sort => {
                let list = items_arg(a, 0);
                let texts = texts_of(&list);
                Effect::plain(1, one(Value::List(as_strings(sort_texts(texts)))))
            },
            Command::Reverse => {
                let list = items_arg(a, 0);
                Effect::plain(1, one(Value::List(reversed(&list))))
            },
            Command::Each(sweep) => Effect::followed(
                3,
                Control::Each(sweep, items_arg(a, 2), txt_arg(a, 1), txt_arg(a, 0)),
            ),
            Command::Range => {
                let step = limit_arg(a, 0);
                let hi = limit_arg(a, 1);
                let lo = limit_arg(a, 2);
                Effect::plain(3, one(Value::List(range_list(lo, hi, step))))
            },
            Command::Len => {
                let n = match &a[0] {
                    Value::List(l) => count_numeral(l.len()),
                    Value::String(s) => count_numeral(s.len()),
                    _ => text_of("1"),
                };
                Effect::plain(1, one(Value::Number(n)))
            },
            Command::Pop => Effect::plain(1, no_values()),
            Command::SizeStack => Effect::plain(0, one(Value::Number(count_numeral(depth)))),
            Command::Var => Effect::changing(2, Change::Bind(txt_arg(a, 0), value_arg(a, 1))),
            Command::TypeOf => Effect::plain(1, one(Value::String(a[0].kind().name()))),
            Command::Cast => Effect::plain(2, one(value_arg(a, 1))),
            Command::Mem => Effect::plain(0, one(Value::List(memory.names()))),
            Command::Free => Effect::changing(1, Change::Free(txt_arg(a, 0))),
            Command::Duplicate => Effect::plain(1, two(value_arg(a, 0), value_arg(a, 0))),
            Command::Swap => Effect::plain(2, two(value_arg(a, 0), value_arg(a, 1))),
            Command::NowTime => Effect::plain(0, one(Value::Number(number_in(answer)))),
            Command::Sleep => Effect::plain(1, no_values()),
        }
    }
}

/// Plans a command: makes its operands ready, asks the host what the
/// command needs, and says what the command brings about. Where the facts
/// leave a question open, the question is the result and nothing else
/// has happened.
pub fn execute_command(c: Command, stack: &Vec<Value>, memory: &Memory, facts: &Vec<Fact>) -> (r:
    Result<Effect, Question>)
    ensures
        planned(r) == command_plan(c, lift(stack@), memory@, lift(facts@)),
{
    let sig = c.signature();
    let n: usize = sig.len();
    let blank = Value::String(Vec::new());
    let mut args: Vec<Value> = Vec::new();
    let mut i: usize = 0;
    assert(lift(args@) =~= Seq::<ValueView>::empty());
    while i < n
        invariant
            i <= n,
            n == arity(c),
            blank@ == ValueView::String(Seq::empty()),
            args@.len() == i,
            ready(c, lift(stack@), lift(facts@), i as nat) == Ok::<Seq<ValueView>, QuestionView>(
                lift(args@),
            ),
        decreases n - i,
    {
        let v: &Value = if i < stack.len() {
            &stack[stack.len() - 1 - i]
        } else {
            &blank
        };
        assert(v@ == operand(lift(stack@), i as int));
        let kind = c.wanted(i, &args);
        let q = v.coercion_question(kind);
        if is_open(facts, &q) {
            proof {
                ready_stays_open(c, lift(stack@), lift(facts@), (i + 1) as nat, n as nat);
            }
            return Err(q.unwrap());
        }
        let answer = answer_of(facts, &q);
        let made = v.coerce(kind, &answer);
        assert(lift(args@.push(made)) =~= lift(args@).push(made@));
        args.push(made);
        i = i + 1;
    }
    let q = c.host_question(&args);
    if is_open(facts, &q) {
        return Err(q.unwrap());
    }
    let answer = answer_of(facts, &q);
    Ok(c.outcome(&args, &answer, stack.len(), memory))
}

/// Plans a token: says what the token brings about on the stack and the
/// store, or which question the host has to answer first.
pub fn evaluate_token(token: &Vec<char>, stack: &Vec<Value>, memory: &Memory, facts: &Vec<Fact>) -> (r:
    Result<Effect, Question>)
    ensures
        planned(r) == token_plan(token@, lift(stack@), memory@, lift(facts@)),
{
    if is_quoted(token) {
        return Ok(Effect::plain(0, one(Value::String(inner_text(token)))));
    }
    if is_bracketed(token) {
        let inside = inner_text(token);
        return Ok(Effect::followed(0, Control::Gather(squeeze_text(&inside))));
    }
    let q = Question::Parse(token.clone());
    match find_fact(facts, &q) {
        None => {
            return Err(q);
        },
        Some(i) => {
            match &facts[i].answer {
                Some(Value::Number(t)) => {
                    return Ok(Effect::plain(0, one(Value::Number(t.clone()))));
                },
                _ => {},
            }
        },
    }
    if is_word(token, "true") {
        return Ok(Effect::plain(0, one(Value::Bool(true))));
    }
    if is_word(token, "false") {
        return Ok(Effect::plain(0, one(Value::Bool(false))));
    }
    match memory.get(token) {
        Some(v) => {
            return Ok(Effect::plain(0, one(v)));
        },
        None => {},
    }
    if holds_hash(token) {
        let mut e = Effect::plain(0, no_values());
        let mut line = text_of("※ コメント「");
        let bare = strip_hash(token);
        append(&mut line, &bare);
        append_str(&mut line, "」\n");
        e.note = line;
        return Ok(e);
    }
    match Command::named(token) {
        Some(c) => execute_command(c, stack, memory, facts),
        None => Ok(Effect::plain(0, one(Value::String(token.clone())))),
    }
}

} // verus!
