//! The tokenizer, and the shapes of token that the engine tells apart.

use vstd::prelude::*;
use crate::text::{lift, segments, slice};

verus! {

/// A tab, a line feed, a carriage return and the ideographic space count as
/// a plain space.
pub open spec fn collapse(c: char) -> char {
    if c == '\n' || c == '\t' || c == '\r' || c == '\u{3000}' {
        ' '
    } else {
        c
    }
}

/// The source with its white space made plain spaces.
pub open spec fn collapsed(s: Seq<char>) -> Seq<char> {
    Seq::new(s.len(), |i: int| collapse(s[i]))
}

/// How many round brackets stand open before position `i`: every `(` opens
/// one and every `)` closes one, wherever it stands.
pub open spec fn round_depth(s: Seq<char>, i: int) -> int
    decreases i,
{
    if i <= 0 || i > s.len() {
        0
    } else {
        round_depth(s, i - 1) + if s[i - 1] == '(' {
            1int
        } else if s[i - 1] == ')' {
            -1int
        } else {
            0int
        }
    }
}

/// How many square brackets stand open before position `i`. A square
/// bracket counts only where no round bracket stands open.
pub open spec fn square_depth(s: Seq<char>, i: int) -> int
    decreases i,
{
    if i <= 0 || i > s.len() {
        0
    } else {
        square_depth(s, i - 1) + if round_depth(s, i - 1) != 0 {
            0int
        } else if s[i - 1] == '[' {
            1int
        } else if s[i - 1] == ']' {
            -1int
        } else {
            0int
        }
    }
}

/// Whether position `i` lies in a comment: behind an odd number of `#`.
pub open spec fn in_comment(s: Seq<char>, i: int) -> bool
    decreases i,
{
    if i <= 0 || i > s.len() {
        false
    } else {
        in_comment(s, i - 1) != (s[i - 1] == '#')
    }
}

/// Whether the character at `i` ends a token: a space outside every
/// comment and every bracket.
pub open spec fn splits_at(s: Seq<char>, i: int) -> bool {
    0 <= i < s.len() && collapse(s[i]) == ' ' && !in_comment(s, i) && square_depth(s, i) == 0
        && round_depth(s, i) == 0
}

/// The positions of the source that end a token.
pub open spec fn boundary(s: Seq<char>) -> spec_fn(int) -> bool {
    |i: int| splits_at(s, i)
}

/// The tokens of a source text: the non-empty runs between the spaces that
/// end a token, white space within a token made plain spaces.
pub open spec fn tokens(s: Seq<char>) -> Seq<Seq<char>> {
    segments(collapsed(s), boundary(s), 0, 0)
}

/// Whether a token is a string in round brackets.
pub open spec fn quoted(t: Seq<char>) -> bool {
    t.len() >= 2 && t[0] == '(' && t[t.len() - 1] == ')'
}

/// Whether a token is a list in square brackets.
pub open spec fn bracketed(t: Seq<char>) -> bool {
    t.len() >= 2 && t[0] == '[' && t[t.len() - 1] == ']'
}

/// A token without its first and last character.
pub open spec fn inner(t: Seq<char>) -> Seq<char> {
    t.subrange(1, t.len() - 1)
}

/// Whether a text holds a `#`.
pub open spec fn has_hash(t: Seq<char>) -> bool {
    exists|i: int| 0 <= i < t.len() && t[i] == '#'
}

/// A text without its `#` characters.
pub open spec fn without_hash(t: Seq<char>) -> Seq<char>
    decreases t.len(),
{
    if t.len() == 0 {
        Seq::empty()
    } else if t.last() == '#' {
        without_hash(t.drop_last())
    } else {
        without_hash(t.drop_last()).push(t.last())
    }
}

fn collapse_char(c: char) -> (r: char)
    ensures
        r == collapse(c),
{
    if c == '\n' || c == '\t' || c == '\r' || c == '\u{3000}' {
        ' '
    } else {
        c
    }
}

/// Cuts a source text into its tokens.
pub fn analyze_syntax(code: &Vec<char>) -> (r: Vec<Vec<char>>)
    ensures
        lift(r@) == tokens(code@),
{
    let ghost t = collapsed(code@);
    let ghost cut = boundary(code@);
    let mut out: Vec<Vec<char>> = Vec::new();
    let mut buffer: Vec<char> = Vec::new();
    let mut round: i128 = 0;
    let mut square: i128 = 0;
    let mut comment = false;
    let ghost mut start: int = 0;
    let mut i: usize = 0;
    assert(lift(out@) + segments(t, cut, 0, 0) =~= segments(t, cut, 0, 0));
    while i < code.len()
        invariant
            0 <= start <= i <= code.len(),
            t == collapsed(code@),
            cut == boundary(code@),
            buffer@ == t.subrange(start, i as int),
            round == round_depth(code@, i as int),
            square == square_depth(code@, i as int),
            comment == in_comment(code@, i as int),
            -i <= round <= i,
            -i <= square <= i,
            lift(out@) + segments(t, cut, start, i as int) == segments(t, cut, 0, 0),
        decreases code.len() - i,
    {
        let raw = code[i];
        let c = collapse_char(raw);
        assert(t[i as int] == c);
        let split = c == ' ' && !comment && square == 0 && round == 0;
        assert(split == cut(i as int));
        if raw == '(' {
            round = round + 1;
        } else if raw == ')' {
            round = round - 1;
        } else if raw == '#' {
            comment = !comment;
        } else if raw == '[' && round == 0 {
            square = square + 1;
        } else if raw == ']' && round == 0 {
            square = square - 1;
        }
        if split {
            if buffer.len() > 0 {
                proof {
                    assert(lift(out@.push(buffer)) =~= lift(out@) + seq![buffer@]);
                    assert(lift(out@) + (seq![buffer@] + segments(t, cut, i + 1, i + 1)) =~= lift(
                        out@,
                    ) + seq![buffer@] + segments(t, cut, i + 1, i + 1));
                }
                out.push(buffer);
                buffer = Vec::new();
            } else {
                assert(seq![] + segments(t, cut, i + 1, i + 1) =~= segments(t, cut, i + 1, i + 1));
            }
            proof {
                start = i + 1;
            }
            assert(buffer@ =~= t.subrange(start, i + 1));
        } else {
            buffer.push(c);
            assert(buffer@ =~= t.subrange(start, i + 1));
        }
        i = i + 1;
    }
    if buffer.len() > 0 {
        proof {
            assert(lift(out@.push(buffer)) =~= lift(out@) + seq![buffer@]);
        }
        out.push(buffer);
    } else {
        assert(lift(out@) + Seq::<Seq<char>>::empty() =~= lift(out@));
    }
    out
}

/// Whether a token is a string in round brackets.
pub fn is_quoted(t: &Vec<char>) -> (r: bool)
    ensures
        r == quoted(t@),
{
    t.len() >= 2 && t[0] == '(' && t[t.len() - 1] == ')'
}

/// Whether a token is a list in square brackets.
pub fn is_bracketed(t: &Vec<char>) -> (r: bool)
    ensures
        r == bracketed(t@),
{
    t.len() >= 2 && t[0] == '[' && t[t.len() - 1] == ']'
}

/// The text between the brackets of a token.
pub fn inner_text(t: &Vec<char>) -> (r: Vec<char>)
    requires
        t.len() >= 2,
    ensures
        r@ == inner(t@),
{
    slice(t, 1, t.len() - 1)
}

/// Whether a text holds a `#`.
pub fn holds_hash(t: &Vec<char>) -> (r: bool)
    ensures
        r == has_hash(t@),
{
    let mut i: usize = 0;
    while i < t.len()
        invariant
            i <= t.len(),
            forall|j: int| 0 <= j < i ==> t@[j] != '#',
        decreases t.len() - i,
    {
        if t[i] == '#' {
            return true;
        }
        i = i + 1;
    }
    false
}

/// Takes the `#` characters out of a text.
pub fn strip_hash(t: &Vec<char>) -> (r: Vec<char>)
    ensures
        r@ == without_hash(t@),
{
    let mut out: Vec<char> = Vec::new();
    let mut i: usize = 0;
    assert(t@.take(0) =~= Seq::<char>::empty());
    while i < t.len()
        invariant
            i <= t.len(),
            out@ == without_hash(t@.take(i as int)),
        decreases t.len() - i,
    {
        assert(t@.take(i + 1).drop_last() =~= t@.take(i as int));
        if t[i] != '#' {
            out.push(t[i]);
        }
        i = i + 1;
    }
    assert(t@.take(t.len() as int) =~= t@);
    out
}

} // verus!
