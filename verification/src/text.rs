//! Text as a vector of Unicode scalar values, and the string operations of the language.

use vstd::prelude::*;

verus! {

/// The views of the items of a sequence, in order.
pub open spec fn lift<T: View>(s: Seq<T>) -> Seq<T::V> {
    Seq::new(s.len(), |i: int| s[i]@)
}

/// A character is the one that its code point names.
pub proof fn code_names_char(c: char)
    ensures
        (c as u32) as char == c,
{
}

/// The characters of a string slice.
pub fn text_of(s: &str) -> (r: Vec<char>)
    ensures
        r@ == s@,
{
    let mut out: Vec<char> = Vec::new();
    for c in it: s.chars()
        invariant
            out@ == it.seq().take(it.index()),
    {
        out.push(c);
    }
    out
}

/// `String::push` of std appends the character to the end of the string.
pub assume_specification[ std::string::String::push ](s: &mut std::string::String, ch: char)
    ensures
        final(s)@ == old(s)@.push(ch),
;

/// The string that holds the characters of a text.
pub fn string_of_text(t: &Vec<char>) -> (r: String)
    ensures
        r@ == t@,
{
    let mut out = String::new();
    let mut i: usize = 0;
    while i < t.len()
        invariant
            i <= t.len(),
            out@ == t@.take(i as int),
        decreases t.len() - i,
    {
        out.push(t[i]);
        i = i + 1;
        assert(out@ =~= t@.take(i as int));
    }
    assert(t@.take(t.len() as int) =~= t@);
    out
}

/// Whether two texts hold the same characters.
pub fn same_text(a: &Vec<char>, b: &Vec<char>) -> (r: bool)
    ensures
        r == (a@ == b@),
{
    if a.len() != b.len() {
        return false;
    }
    let mut i: usize = 0;
    while i < a.len()
        invariant
            i <= a.len(),
            a.len() == b.len(),
            forall|j: int| 0 <= j < i ==> a@[j] == b@[j],
        decreases a.len() - i,
    {
        if a[i] != b[i] {
            return false;
        }
        i = i + 1;
    }
    assert(a@ =~= b@);
    true
}

/// Whether a text spells the given word.
pub fn is_word(t: &Vec<char>, word: &str) -> (r: bool)
    ensures
        r == (t@ == word@),
{
    let w = text_of(word);
    same_text(t, &w)
}

/// Appends the characters of `s` to `t`.
pub fn append(t: &mut Vec<char>, s: &Vec<char>)
    ensures
        final(t)@ == old(t)@ + s@,
{
    let mut i: usize = 0;
    while i < s.len()
        invariant
            i <= s.len(),
            t@ == old(t)@ + s@.take(i as int),
        decreases s.len() - i,
    {
        t.push(s[i]);
        i = i + 1;
        assert(t@ =~= old(t)@ + s@.take(i as int));
    }
    assert(s@.take(s.len() as int) =~= s@);
}

/// Appends the characters of a string slice to `t`.
pub fn append_str(t: &mut Vec<char>, s: &str)
    ensures
        final(t)@ == old(t)@ + s@,
{
    let w = text_of(s);
    append(t, &w);
}

/// The characters of `t` from `from` up to, not including, `to`.
pub fn slice(t: &Vec<char>, from: usize, to: usize) -> (r: Vec<char>)
    requires
        from <= to <= t.len(),
    ensures
        r@ == t@.subrange(from as int, to as int),
{
    let mut out: Vec<char> = Vec::new();
    let mut i: usize = from;
    while i < to
        invariant
            from <= i <= to <= t.len(),
            out@ == t@.subrange(from as int, i as int),
        decreases to - i,
    {
        out.push(t[i]);
        i = i + 1;
        assert(out@ =~= t@.subrange(from as int, i as int));
    }
    out
}

/// The parts laid end to end with `sep` between neighbours.
pub open spec fn join(parts: Seq<Seq<char>>, sep: Seq<char>) -> Seq<char>
    decreases parts.len(),
{
    if parts.len() == 0 {
        Seq::empty()
    } else if parts.len() == 1 {
        parts[0]
    } else {
        join(parts.drop_last(), sep) + sep + parts.last()
    }
}

/// Joins texts with a separator.
pub fn join_texts(parts: &Vec<Vec<char>>, sep: &Vec<char>) -> (r: Vec<char>)
    ensures
        r@ == join(lift(parts@), sep@),
{
    let mut out: Vec<char> = Vec::new();
    let mut i: usize = 0;
    while i < parts.len()
        invariant
            i <= parts.len(),
            out@ == join(lift(parts@).take(i as int), sep@),
        decreases parts.len() - i,
    {
        if i > 0 {
            append(&mut out, sep);
        }
        append(&mut out, &parts[i]);
        i = i + 1;
        proof {
            let now = lift(parts@).take(i as int);
            assert(now.drop_last() =~= lift(parts@).take(i - 1));
            assert(now.last() == parts@[i - 1]@);
        }
    }
    assert(lift(parts@).take(parts.len() as int) =~= lift(parts@));
    out
}

/// `n` copies of `t`, end to end.
pub open spec fn repeat(t: Seq<char>, n: nat) -> Seq<char>
    decreases n,
{
    if n == 0 {
        Seq::empty()
    } else {
        repeat(t, (n - 1) as nat) + t
    }
}

proof fn repeat_nothing(t: Seq<char>, n: nat)
    requires
        t.len() == 0,
    ensures
        repeat(t, n) == Seq::<char>::empty(),
    decreases n,
{
    if n > 0 {
        repeat_nothing(t, (n - 1) as nat);
        assert(repeat(t, n) =~= Seq::<char>::empty());
    }
}

/// Repeats a text `n` times.
pub fn repeat_text(t: &Vec<char>, n: usize) -> (r: Vec<char>)
    ensures
        r@ == repeat(t@, n as nat),
{
    let mut out: Vec<char> = Vec::new();
    if t.len() == 0 {
        proof {
            repeat_nothing(t@, n as nat);
        }
        return out;
    }
    let mut i: usize = 0;
    while i < n
        invariant
            i <= n,
            out@ == repeat(t@, i as nat),
        decreases n - i,
    {
        append(&mut out, t);
        i = i + 1;
    }
    out
}

/// Whether `w` stands in `t` at position `i`.
pub open spec fn occurs_at(t: Seq<char>, w: Seq<char>, i: int) -> bool {
    0 <= i && i + w.len() <= t.len() && t.subrange(i, i + w.len()) == w
}

/// Whether `w` stands somewhere in `t`.
pub open spec fn contains(t: Seq<char>, w: Seq<char>) -> bool {
    exists|i: int| occurs_at(t, w, i)
}

/// Tests for an occurrence of `w` in `t` at position `i`.
pub fn matches_at(t: &Vec<char>, w: &Vec<char>, i: usize) -> (r: bool)
    ensures
        r == occurs_at(t@, w@, i as int),
{
    if w.len() > t.len() || i > t.len() - w.len() {
        return false;
    }
    let mut j: usize = 0;
    while j < w.len()
        invariant
            j <= w.len(),
            i + w.len() <= t.len(),
            forall|k: int| 0 <= k < j ==> t@[i + k] == w@[k],
        decreases w.len() - j,
    {
        if t[i + j] != w[j] {
            assert(t@.subrange(i as int, i + w.len())[j as int] != w@[j as int]);
            return false;
        }
        j = j + 1;
    }
    assert(t@.subrange(i as int, i + w.len()) =~= w@);
    true
}

/// Substring test.
pub fn find(t: &Vec<char>, w: &Vec<char>) -> (r: bool)
    ensures
        r == contains(t@, w@),
{
    if w.len() > t.len() {
        return false;
    }
    let last: usize = t.len() - w.len();
    let mut i: usize = 0;
    while i < last
        invariant
            i <= last,
            last == t.len() - w.len(),
            forall|j: int| 0 <= j < i ==> !occurs_at(t@, w@, j),
        decreases last - i,
    {
        if matches_at(t, w, i) {
            return true;
        }
        i = i + 1;
    }
    matches_at(t, w, last)
}

/// The pieces of `t` between the occurrences of a non-empty `w`, found from
/// the left and never overlapping; `start` is where the current piece
/// began and `i` how far the search has come.
pub open spec fn pieces(t: Seq<char>, w: Seq<char>, start: int, i: int) -> Seq<Seq<char>>
    decreases t.len() - i,
{
    if w.len() == 0 || i < start || start < 0 || i + w.len() > t.len() {
        seq![t.subrange(start, t.len() as int)]
    } else if occurs_at(t, w, i) {
        seq![t.subrange(start, i)] + pieces(t, w, i + w.len(), i + w.len())
    } else {
        pieces(t, w, start, i + 1)
    }
}

/// What splitting `t` at `w` gives. An empty `w` is found before and after
/// every character.
pub open spec fn split(t: Seq<char>, w: Seq<char>) -> Seq<Seq<char>> {
    if w.len() == 0 {
        Seq::new(
            t.len() + 2,
            |i: int|
                if 1 <= i <= t.len() {
                    seq![t[i - 1]]
                } else {
                    Seq::empty()
                },
        )
    } else {
        pieces(t, w, 0, 0)
    }
}

/// What replacing every occurrence of `w` in `t` by `to` gives.
pub open spec fn replace(t: Seq<char>, w: Seq<char>, to: Seq<char>) -> Seq<char> {
    join(split(t, w), to)
}

/// Splits a text at a separator.
pub fn split_text(t: &Vec<char>, w: &Vec<char>) -> (r: Vec<Vec<char>>)
    ensures
        lift(r@) == split(t@, w@),
{
    let mut out: Vec<Vec<char>> = Vec::new();
    if w.len() == 0 {
        out.push(Vec::new());
        let mut i: usize = 0;
        while i < t.len()
            invariant
                i <= t.len(),
                out@.len() == i + 1,
                out@[0]@ == Seq::<char>::empty(),
                forall|j: int| 1 <= j <= i ==> out@[j]@ == seq![t@[j - 1]],
            decreases t.len() - i,
        {
            let mut one: Vec<char> = Vec::new();
            one.push(t[i]);
            assert(one@ =~= seq![t@[i as int]]);
            out.push(one);
            i = i + 1;
        }
        out.push(Vec::new());
        assert(lift(out@) =~= split(t@, w@));
        return out;
    }
    let mut start: usize = 0;
    let mut i: usize = 0;
    while w.len() <= t.len() && i <= t.len() - w.len()
        invariant
            0 <= start <= i,
            w.len() > 0,
            i <= t.len(),
            lift(out@) + pieces(t@, w@, start as int, i as int) == pieces(t@, w@, 0, 0),
        decreases t.len() - i,
    {
        if matches_at(t, w, i) {
            let piece = slice(t, start, i);
            proof {
                assert(lift(out@.push(piece)) =~= lift(out@) + seq![piece@]);
                assert(lift(out@) + (seq![piece@] + pieces(
                    t@,
                    w@,
                    i + w.len(),
                    i + w.len(),
                )) =~= lift(out@) + seq![piece@] + pieces(t@, w@, i + w.len(), i + w.len()));
            }
            out.push(piece);
            i = i + w.len();
            start = i;
        } else {
            i = i + 1;
        }
    }
    let piece = slice(t, start, t.len());
    proof {
        assert(lift(out@.push(piece)) =~= lift(out@) + seq![piece@]);
    }
    out.push(piece);
    out
}

/// Replaces every occurrence of `w` in `t` by `to`.
pub fn replace_text(t: &Vec<char>, w: &Vec<char>, to: &Vec<char>) -> (r: Vec<char>)
    ensures
        r@ == replace(t@, w@, to@),
{
    let parts = split_text(t, w);
    join_texts(&parts, to)
}

/// The characters with the Unicode property White_Space.
pub open spec fn white(c: char) -> bool {
    let n = c as u32;
    (0x09 <= n <= 0x0D) || n == 0x20 || n == 0x85 || n == 0xA0 || n == 0x1680 || (0x2000 <= n
        <= 0x200A) || n == 0x2028 || n == 0x2029 || n == 0x202F || n == 0x205F || n == 0x3000
}

/// Whether a character is white space.
pub fn is_space(c: char) -> (r: bool)
    ensures
        r == white(c),
{
    let n: u32 = c as u32;
    (0x09 <= n && n <= 0x0D) || n == 0x20 || n == 0x85 || n == 0xA0 || n == 0x1680 || (0x2000 <= n
        && n <= 0x200A) || n == 0x2028 || n == 0x2029 || n == 0x202F || n == 0x205F || n == 0x3000
}

/// The piece of `t` from `start` to `end`, unless it is empty.
pub open spec fn piece(t: Seq<char>, start: int, end: int) -> Seq<Seq<char>> {
    if 0 <= start < end <= t.len() {
        seq![t.subrange(start, end)]
    } else {
        seq![]
    }
}

/// The non-empty pieces into which the positions chosen by `cut` divide `t`.
/// A cut position belongs to no piece. `start` is where the current piece
/// began and `i` how far the scan has come.
pub open spec fn segments(t: Seq<char>, cut: spec_fn(int) -> bool, start: int, i: int) -> Seq<
    Seq<char>,
>
    decreases t.len() - i,
{
    if i >= t.len() {
        piece(t, start, t.len() as int)
    } else if cut(i) {
        piece(t, start, i) + segments(t, cut, i + 1, i + 1)
    } else {
        segments(t, cut, start, i + 1)
    }
}

/// The positions of `t` that hold white space.
pub open spec fn space_at(t: Seq<char>) -> spec_fn(int) -> bool {
    |i: int| 0 <= i < t.len() && white(t[i])
}

/// The words of `t`: its maximal runs without white space.
pub open spec fn words(t: Seq<char>) -> Seq<Seq<char>> {
    segments(t, space_at(t), 0, 0)
}

/// `t` with every run of white space made one space, and none at either end.
pub open spec fn squeeze(t: Seq<char>) -> Seq<char> {
    join(words(t), seq![' '])
}

/// Splits a text into its words.
pub fn words_of(t: &Vec<char>) -> (r: Vec<Vec<char>>)
    ensures
        lift(r@) == words(t@),
{
    let ghost cut = space_at(t@);
    let mut out: Vec<Vec<char>> = Vec::new();
    let mut buffer: Vec<char> = Vec::new();
    let ghost mut start: int = 0;
    let mut i: usize = 0;
    assert(lift(out@) + segments(t@, cut, 0, 0) =~= segments(t@, cut, 0, 0));
    while i < t.len()
        invariant
            0 <= start <= i <= t.len(),
            cut == space_at(t@),
            buffer@ == t@.subrange(start, i as int),
            lift(out@) + segments(t@, cut, start, i as int) == segments(t@, cut, 0, 0),
        decreases t.len() - i,
    {
        let c = t[i];
        if is_space(c) {
            assert(cut(i as int));
            if buffer.len() > 0 {
                proof {
                    assert(lift(out@.push(buffer)) =~= lift(out@) + seq![buffer@]);
                    assert(lift(out@) + (seq![buffer@] + segments(t@, cut, i + 1, i + 1)) =~= lift(
                        out@,
                    ) + seq![buffer@] + segments(t@, cut, i + 1, i + 1));
                }
                out.push(buffer);
                buffer = Vec::new();
            } else {
                assert(piece(t@, start, i as int) =~= seq![]);
                assert(seq![] + segments(t@, cut, i + 1, i + 1) =~= segments(t@, cut, i + 1, i + 1));
            }
            proof {
                start = i + 1;
            }
            assert(buffer@ =~= t@.subrange(start, i + 1));
        } else {
            assert(!cut(i as int));
            buffer.push(c);
            assert(buffer@ =~= t@.subrange(start, i + 1));
        }
        i = i + 1;
    }
    if buffer.len() > 0 {
        proof {
            assert(lift(out@.push(buffer)) =~= lift(out@) + seq![buffer@]);
        }
        out.push(buffer);
    } else {
        assert(lift(out@) + Seq::<Seq<char>>::empty() =~= lift(out@));
    }
    out
}

/// Makes every run of white space one space and trims both ends.
pub fn squeeze_text(t: &Vec<char>) -> (r: Vec<char>)
    ensures
        r@ == squeeze(t@),
{
    let parts = words_of(t);
    let mut sep: Vec<char> = Vec::new();
    sep.push(' ');
    assert(sep@ =~= seq![' ']);
    join_texts(&parts, &sep)
}

} // verus!
