//! Numbers as decimal numerals.
//!
//! A number is held by the shortest decimal text that names its double:
//! an optional `-`, then `NaN`, `inf`, or digits with an optional fraction.
//! Whole numbers are written here, and the whole part and the zero of a
//! numeral are read here, from its digits; all other arithmetic belongs
//! to the host.

use vstd::prelude::*;

verus! {

/// The decimal digit for a value below ten.
pub open spec fn digit(d: nat) -> char {
    if d == 0 {
        '0'
    } else if d == 1 {
        '1'
    } else if d == 2 {
        '2'
    } else if d == 3 {
        '3'
    } else if d == 4 {
        '4'
    } else if d == 5 {
        '5'
    } else if d == 6 {
        '6'
    } else if d == 7 {
        '7'
    } else if d == 8 {
        '8'
    } else {
        '9'
    }
}

/// The decimal numeral of a natural number.
pub open spec fn digits(n: nat) -> Seq<char>
    decreases n,
{
    if n < 10 {
        seq![digit(n)]
    } else {
        digits(n / 10).push(digit(n % 10))
    }
}

/// Whether a character is a decimal digit.
pub open spec fn is_digit(c: char) -> bool {
    48 <= c as u32 <= 57
}

/// The value of a decimal digit.
pub open spec fn digit_value(c: char) -> nat {
    (c as u32 - 48) as nat
}

/// The number that a run of decimal digits spells; zero for the empty run.
pub open spec fn decimal(s: Seq<char>) -> nat
    decreases s.len(),
{
    if s.len() == 0 {
        0
    } else {
        decimal(s.drop_last()) * 10 + digit_value(s.last())
    }
}

/// Where the run of digits that begins at `i` ends.
pub open spec fn run_end(t: Seq<char>, i: int) -> int
    decreases t.len() - i,
{
    if 0 <= i < t.len() && is_digit(t[i]) {
        run_end(t, i + 1)
    } else {
        i
    }
}

/// Whether a numeral begins with a minus sign.
pub open spec fn negative(t: Seq<char>) -> bool {
    t.len() > 0 && t[0] == '-'
}

/// Where the numeral proper begins: behind the sign, if there is one.
pub open spec fn body_start(t: Seq<char>) -> int {
    if negative(t) {
        1
    } else {
        0
    }
}

/// Whether a numeral names an infinity.
pub open spec fn infinite(t: Seq<char>) -> bool {
    t.subrange(body_start(t), t.len() as int) == seq!['i', 'n', 'f']
}

/// Stands for the size of an infinity: beyond every machine integer.
pub open spec fn beyond() -> int {
    0x1_0000_0000_0000_0000_0000_0000_0000_0000int
}

/// The size of the whole part of a numeral: the digits before any
/// fraction. `NaN` has none and counts as zero.
pub open spec fn whole_size(t: Seq<char>) -> int {
    if infinite(t) {
        beyond()
    } else {
        decimal(t.subrange(body_start(t), run_end(t, body_start(t)))) as int
    }
}

/// The whole part of a numeral, rounded towards zero.
pub open spec fn whole(t: Seq<char>) -> int {
    if negative(t) {
        -whole_size(t)
    } else {
        whole_size(t)
    }
}

/// `x`, or the nearer bound where it lies outside `lo ..= hi`.
pub open spec fn clamp(x: int, lo: int, hi: int) -> int {
    if x < lo {
        lo
    } else if x > hi {
        hi
    } else {
        x
    }
}

/// Whether a numeral names zero, of either sign: behind the sign stand
/// zeros alone, at least one of them, with at most one point among them.
pub open spec fn is_zero(t: Seq<char>) -> bool {
    &&& exists|i: int| body_start(t) <= i < t.len() && #[trigger] t[i] == '0'
    &&& forall|i: int| body_start(t) <= i < t.len() ==> #[trigger] t[i] == '0' || t[i] == '.'
    &&& forall|i: int, j: int|
        body_start(t) <= i < j < t.len() ==> !(#[trigger] t[i] == '.' && #[trigger] t[j] == '.')
}

/// An integer as a numeral: a minus sign before the digits of a negative
/// one.
pub open spec fn integer_digits(n: int) -> Seq<char> {
    if n < 0 {
        seq!['-'] + digits((-n) as nat)
    } else {
        digits(n as nat)
    }
}

fn digit_char(d: u64) -> (c: char)
    requires
        d < 10,
    ensures
        c == digit(d as nat),
{
    if d == 0 {
        '0'
    } else if d == 1 {
        '1'
    } else if d == 2 {
        '2'
    } else if d == 3 {
        '3'
    } else if d == 4 {
        '4'
    } else if d == 5 {
        '5'
    } else if d == 6 {
        '6'
    } else if d == 7 {
        '7'
    } else if d == 8 {
        '8'
    } else {
        '9'
    }
}

fn wide_numeral(n: u128) -> (r: Vec<char>)
    ensures
        r@ == digits(n as nat),
    decreases n,
{
    if n < 10 {
        let mut out: Vec<char> = Vec::new();
        out.push(digit_char(n as u64));
        assert(out@ =~= seq![digit(n as nat)]);
        out
    } else {
        let mut out = wide_numeral(n / 10);
        out.push(digit_char((n % 10) as u64));
        out
    }
}

/// Writes a count as a numeral.
pub fn numeral_of(n: u64) -> (r: Vec<char>)
    ensures
        r@ == digits(n as nat),
{
    wide_numeral(n as u128)
}

/// Writes an integer as a numeral.
pub fn integer_numeral(n: i128) -> (r: Vec<char>)
    ensures
        r@ == integer_digits(n as int),
{
    if n < 0 {
        let size: u128 = if n == i128::MIN {
            0x8000_0000_0000_0000_0000_0000_0000_0000
        } else {
            (-n) as u128
        };
        let mut out: Vec<char> = Vec::new();
        out.push('-');
        let mut rest = wide_numeral(size);
        out.append(&mut rest);
        assert(out@ =~= seq!['-'] + digits((-n) as nat));
        out
    } else {
        wide_numeral(n as u128)
    }
}

/// Writes the length of a collection as a numeral.
pub fn count_numeral(n: usize) -> (r: Vec<char>)
    ensures
        r@ == digits(n as nat),
{
    numeral_of(n as u64)
}

/// Tests a numeral for zero.
pub fn names_zero(t: &Vec<char>) -> (r: bool)
    ensures
        r == is_zero(t@),
{
    let from: usize = if starts_negative(t) {
        1
    } else {
        0
    };
    let mut zero = false;
    let mut point = false;
    let ghost mut zero_at: int = 0;
    let ghost mut point_at: int = 0;
    let mut i: usize = from;
    while i < t.len()
        invariant
            from <= i <= t.len(),
            from == body_start(t@),
            forall|k: int| from <= k < i ==> #[trigger] t@[k] == '0' || t@[k] == '.',
            zero ==> from <= zero_at < i && t@[zero_at] == '0',
            !zero ==> forall|k: int| from <= k < i ==> #[trigger] t@[k] != '0',
            point ==> from <= point_at < i && t@[point_at] == '.',
            !point ==> forall|k: int| from <= k < i ==> #[trigger] t@[k] != '.',
            forall|k: int, j: int|
                from <= k < j < i ==> !(#[trigger] t@[k] == '.' && #[trigger] t@[j] == '.'),
        decreases t.len() - i,
    {
        let c = t[i];
        if c == '0' {
            zero = true;
            proof {
                zero_at = i as int;
            }
        } else if c == '.' {
            if point {
                assert(t@[point_at] == '.' && t@[i as int] == '.');
                return false;
            }
            point = true;
            proof {
                point_at = i as int;
            }
        } else {
            assert(!(t@[i as int] == '0' || t@[i as int] == '.'));
            return false;
        }
        i = i + 1;
    }
    zero
}

fn starts_negative(t: &Vec<char>) -> (r: bool)
    ensures
        r == negative(t@),
{
    t.len() > 0 && t[0] == '-'
}

fn names_infinity(t: &Vec<char>) -> (r: bool)
    ensures
        r == infinite(t@),
{
    let from: usize = if starts_negative(t) {
        1
    } else {
        0
    };
    let ghost body = t@.subrange(from as int, t.len() as int);
    if t.len() - from != 3 {
        assert(body.len() != 3);
        return false;
    }
    let r = t[from] == 'i' && t[from + 1] == 'n' && t[from + 2] == 'f';
    assert(body[0] == t@[from as int] && body[1] == t@[from + 1] && body[2] == t@[from + 2]);
    assert(r == (body =~= seq!['i', 'n', 'f']));
    r
}

/// The cap of `size_of`: one more than the largest 64-bit count.
pub open spec fn cap() -> int {
    0x1_0000_0000_0000_0000int
}

/// The size of the whole part of a numeral, capped at 2^64.
fn size_of(t: &Vec<char>) -> (r: u128)
    ensures
        r == if whole_size(t@) < cap() {
            whole_size(t@)
        } else {
            cap()
        },
{
    if names_infinity(t) {
        return 0x1_0000_0000_0000_0000;
    }
    let from: usize = if starts_negative(t) {
        1
    } else {
        0
    };
    let mut acc: u128 = 0;
    let mut i: usize = from;
    assert(t@.subrange(from as int, from as int) =~= Seq::<char>::empty());
    while i < t.len() && 48 <= t[i] as u32 && t[i] as u32 <= 57
        invariant
            from <= i <= t.len(),
            run_end(t@, i as int) == run_end(t@, from as int),
            acc <= cap(),
            acc == if decimal(t@.subrange(from as int, i as int)) < cap() {
                decimal(t@.subrange(from as int, i as int)) as int
            } else {
                cap()
            },
        decreases t.len() - i,
    {
        let d: u128 = (t[i] as u32 - 48) as u128;
        proof {
            let next = t@.subrange(from as int, i + 1);
            assert(next.drop_last() =~= t@.subrange(from as int, i as int));
            assert(next.last() == t@[i as int]);
        }
        acc = acc * 10 + d;
        if acc > 0x1_0000_0000_0000_0000 {
            acc = 0x1_0000_0000_0000_0000;
        }
        i = i + 1;
    }
    acc
}

/// Reads a numeral as an index: its whole part, at least zero and at most
/// the largest `usize`.
pub fn index_of(t: &Vec<char>) -> (r: usize)
    ensures
        r == clamp(whole(t@), 0, usize::MAX as int),
{
    if starts_negative(t) {
        return 0;
    }
    let size = size_of(t);
    if size > usize::MAX as u128 {
        usize::MAX
    } else {
        size as usize
    }
}

/// Reads the whole part of a numeral, kept within 2^64 either way.
pub fn whole_of(t: &Vec<char>) -> (r: i128)
    ensures
        r == clamp(whole(t@), -cap(), cap()),
{
    let size = size_of(t);
    if starts_negative(t) {
        -(size as i128)
    } else {
        size as i128
    }
}

/// Reads a numeral as an exit status: its whole part, kept within `i32`.
pub fn status_of(t: &Vec<char>) -> (r: i32)
    ensures
        r == clamp(whole(t@), i32::MIN as int, i32::MAX as int),
{
    let size = size_of(t);
    if starts_negative(t) {
        if size >= 0x8000_0000 {
            i32::MIN
        } else {
            -(size as i32)
        }
    } else {
        if size > 0x7FFF_FFFF {
            i32::MAX
        } else {
            size as i32
        }
    }
}

/// Reading back a written count gives the count.
pub proof fn written_count_reads_back(n: nat)
    ensures
        whole(digits(n)) == n,
{
    digits_are_digits(n);
    let t = digits(n);
    run_of_digits(t, 0);
    assert(t.subrange(0, t.len() as int) =~= t);
    assert(t[0] != '-');
    assert(t[0] != 'i');
    assert(t.subrange(0, t.len() as int)[0] == t[0]);
    decimal_of_digits(n);
}

/// Reading back a written integer gives the integer.
pub proof fn written_integer_reads_back(n: int)
    ensures
        whole(integer_digits(n)) == n,
{
    if n >= 0 {
        written_count_reads_back(n as nat);
    } else {
        let size = (-n) as nat;
        let d = digits(size);
        let t = seq!['-'] + d;
        digits_are_digits(size);
        assert(t[0] == '-');
        assert forall|j: int| 1 <= j < t.len() implies is_digit(#[trigger] t[j]) by {
            assert(t[j] == d[j - 1]);
        }
        run_of_digits(t, 1);
        assert(t.subrange(1, t.len() as int) =~= d);
        assert(d[0] != 'i');
        decimal_of_digits(size);
    }
}

proof fn run_is_digits(t: Seq<char>, i: int)
    requires
        0 <= i <= t.len(),
    ensures
        i <= run_end(t, i) <= t.len(),
        forall|j: int| i <= j < run_end(t, i) ==> is_digit(#[trigger] t[j]),
    decreases t.len() - i,
{
    if i < t.len() && is_digit(t[i]) {
        run_is_digits(t, i + 1);
    }
}

proof fn zeros_spell_zero(s: Seq<char>)
    requires
        forall|j: int| 0 <= j < s.len() ==> #[trigger] s[j] == '0',
    ensures
        decimal(s) == 0,
    decreases s.len(),
{
    if s.len() > 0 {
        zeros_spell_zero(s.drop_last());
        assert(s.last() == s[s.len() - 1]);
        assert('0' as u32 == 48);
    }
}

/// The whole part of a numeral that names zero is zero.
pub proof fn zero_has_no_whole_part(t: Seq<char>)
    requires
        is_zero(t),
    ensures
        whole(t) == 0,
{
    let from = body_start(t);
    let body = t.subrange(from, t.len() as int);
    assert(body[0] == t[from]);
    assert(t[from] == '0' || t[from] == '.');
    assert(!infinite(t));
    run_is_digits(t, from);
    let run = t.subrange(from, run_end(t, from));
    assert('.' as u32 == 46);
    assert forall|j: int| 0 <= j < run.len() implies #[trigger] run[j] == '0' by {
        assert(run[j] == t[from + j]);
        assert(is_digit(t[from + j]));
        assert(t[from + j] == '0' || t[from + j] == '.');
    }
    zeros_spell_zero(run);
}

proof fn digits_are_digits(n: nat)
    ensures
        digits(n).len() > 0,
        forall|i: int| 0 <= i < digits(n).len() ==> is_digit(#[trigger] digits(n)[i]),
    decreases n,
{
    if n >= 10 {
        digits_are_digits(n / 10);
    }
}

proof fn run_of_digits(t: Seq<char>, i: int)
    requires
        0 <= i <= t.len(),
        forall|j: int| i <= j < t.len() ==> is_digit(#[trigger] t[j]),
    ensures
        run_end(t, i) == t.len(),
    decreases t.len() - i,
{
    if i < t.len() {
        run_of_digits(t, i + 1);
    }
}

proof fn digit_reads_back(d: nat)
    requires
        d < 10,
    ensures
        is_digit(digit(d)),
        digit_value(digit(d)) == d,
{
    assert('0' as u32 == 48);
    assert('9' as u32 == 57);
}

proof fn decimal_of_digits(n: nat)
    ensures
        decimal(digits(n)) == n,
    decreases n,
{
    digit_reads_back(n % 10);
    if n < 10 {
        assert(digits(n).drop_last() =~= Seq::<char>::empty());
        assert(decimal(digits(n).drop_last()) == 0);
    } else {
        decimal_of_digits(n / 10);
        assert(digits(n).drop_last() =~= digits(n / 10));
    }
}

} // verus!
