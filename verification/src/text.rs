//! Text as sequences of characters: repetition, substitution and decimal
//! numerals, each with the sequence it stands for.

use vstd::prelude::*;
use vstd::string::StringExecFns;

verus! {

/// `String::push` puts one character at the end of the string.
pub assume_specification[ String::push ](s: &mut String, ch: char)
    ensures
        final(s)@ == old(s)@.push(ch),
;

/// `count` repetitions of `unit`, one after another; empty for `count <= 0`.
pub open spec fn repeated(unit: Seq<char>, count: int) -> Seq<char>
    decreases count,
{
    if count <= 0 {
        Seq::empty()
    } else {
        repeated(unit, count - 1) + unit
    }
}

/// Whether `pattern` stands in `text` at index `at`.
pub open spec fn occurs_at(text: Seq<char>, pattern: Seq<char>, at: int) -> bool {
    &&& 0 <= at
    &&& at + pattern.len() <= text.len()
    &&& text.subrange(at, at + pattern.len()) == pattern
}

/// `text` with every occurrence of `from` replaced by `to`. Occurrences are
/// taken from the left and do not overlap; an empty `from` occurs nowhere.
pub open spec fn replaced(text: Seq<char>, from: Seq<char>, to: Seq<char>) -> Seq<char>
    decreases text.len(),
{
    if from.len() == 0 || text.len() < from.len() {
        text
    } else if occurs_at(text, from, 0) {
        to + replaced(text.skip(from.len() as int), from, to)
    } else {
        seq![text[0]] + replaced(text.skip(1), from, to)
    }
}

/// Replacing reaches the first occurrence: where `from` stands after
/// `before` and nowhere earlier, what stands before it stays, `to` takes its
/// place, and what follows is replaced in the same way.
pub proof fn first_occurrence_is_replaced(
    before: Seq<char>,
    from: Seq<char>,
    to: Seq<char>,
    after: Seq<char>,
)
    requires
        from.len() > 0,
        forall|i: int| 0 <= i < before.len() ==> !occurs_at(before + from + after, from, i),
    ensures
        replaced(before + from + after, from, to) == before + to + replaced(after, from, to),
    decreases before.len(),
{
    let text = before + from + after;
    if before.len() == 0 {
        assert(text.subrange(0, from.len() as int) =~= from);
        assert(text.skip(from.len() as int) =~= after);
        assert(before + to + replaced(after, from, to) =~= to + replaced(after, from, to));
    } else {
        let shorter = before.skip(1);
        let rest = shorter + from + after;
        assert(text.skip(1) =~= rest);
        assert(!occurs_at(text, from, 0));
        assert forall|i: int| 0 <= i < shorter.len() implies !occurs_at(rest, from, i) by {
            assert(!occurs_at(text, from, i + 1));
            assert(rest.subrange(i, i + from.len()) =~= text.subrange(i + 1, i + 1 + from.len()));
        }
        first_occurrence_is_replaced(shorter, from, to, after);
        assert(seq![text[0]] + (shorter + to + replaced(after, from, to)) =~= before + to
            + replaced(after, from, to));
    }
}

/// The character for a single decimal digit.
pub open spec fn digit_char(d: int) -> char {
    if d == 0 {
        '0'
    } else if d == 1 {
        '1'
    } else if d == 2 {
        '2'
    } else if d == 3 {
        '3'
    } else if d == 4 {
        '4'
    } else if d == 5 {
        '5'
    } else if d == 6 {
        '6'
    } else if d == 7 {
        '7'
    } else if d == 8 {
        '8'
    } else {
        '9'
    }
}

/// The decimal digits of `n`, most significant first, without leading zeros.
pub open spec fn digits(n: nat) -> Seq<char>
    decreases n,
{
    if n < 10 {
        seq![digit_char(n as int)]
    } else {
        digits(n / 10).push(digit_char((n % 10) as int))
    }
}

/// The decimal numeral of `n`: its digits, after a minus sign if `n < 0`.
pub open spec fn decimal(n: int) -> Seq<char> {
    if n < 0 {
        seq!['-'] + digits((-n) as nat)
    } else {
        digits(n as nat)
    }
}

/// What each of `strings` holds, in order.
pub open spec fn texts(strings: Seq<String>) -> Seq<Seq<char>> {
    strings.map_values(|s: String| s@)
}

/// A copy of `strings`.
pub fn clone_texts(strings: &Vec<String>) -> (copy: Vec<String>)
    ensures
        texts(copy@) == texts(strings@),
{
    let mut copy: Vec<String> = Vec::new();
    let mut i: usize = 0;
    while i < strings.len()
        invariant
            i <= strings.len(),
            copy@.len() == i,
            forall|j: int| 0 <= j < i ==> copy@[j]@ == strings@[j]@,
        decreases strings.len() - i,
    {
        copy.push(strings[i].clone());
        i = i + 1;
    }
    assert(texts(copy@) =~= texts(strings@));
    copy
}

/// The characters of `s`, in order.
pub fn chars_of(s: &str) -> (chars: Vec<char>)
    ensures
        chars@ == s@,
{
    let mut chars: Vec<char> = Vec::new();
    for c in it: s.chars()
        invariant
            chars@ == it.seq().take(it.index() as int),
            it.seq() == s@,
    {
        chars.push(c);
    }
    chars
}

/// Whether `pattern` stands in `text` at index `at`.
fn matches_at(text: &Vec<char>, pattern: &Vec<char>, at: usize) -> (found: bool)
    ensures
        found == occurs_at(text@, pattern@, at as int),
{
    if pattern.len() > text.len() || at > text.len() - pattern.len() {
        return false;
    }
    let mut k: usize = 0;
    while k < pattern.len()
        invariant
            k <= pattern.len(),
            at + pattern.len() <= text.len(),
            forall|j: int| 0 <= j < k ==> text@[at + j] == pattern@[j],
        decreases pattern.len() - k,
    {
        if text[at + k] != pattern[k] {
            proof {
                let window = text@.subrange(at as int, at + pattern.len());
                assert(window[k as int] == text@[at + k]);
            }
            return false;
        }
        k = k + 1;
    }
    assert(text@.subrange(at as int, at + pattern.len()) =~= pattern@);
    true
}

/// Replaces every occurrence of `from` in `text` by `to`, going from the left
/// over occurrences that do not overlap. An empty `from` changes nothing.
pub fn replace_all(text: &str, from: &str, to: &str) -> (out: String)
    ensures
        out@ == replaced(text@, from@, to@),
{
    let chars = chars_of(text);
    let pattern = chars_of(from);
    let mut out = String::new();
    let mut i: usize = 0;
    proof {
        assert(text@.skip(0) =~= text@);
        assert(out@ + replaced(text@, from@, to@) =~= replaced(text@, from@, to@));
    }
    while i < chars.len()
        invariant
            i <= chars.len(),
            chars@ == text@,
            pattern@ == from@,
            replaced(text@, from@, to@) == out@ + replaced(text@.skip(i as int), from@, to@),
        decreases chars.len() - i,
    {
        let ghost rest = text@.skip(i as int);
        if pattern.len() == 0 || chars.len() - i < pattern.len() {
            out.push(chars[i]);
            proof {
                assert(rest.skip(1) =~= text@.skip(i + 1));
                assert(replaced(rest, from@, to@) == rest);
                assert(replaced(rest.skip(1), from@, to@) == rest.skip(1));
                assert(rest =~= seq![rest[0]] + rest.skip(1));
            }
            i = i + 1;
        } else if matches_at(&chars, &pattern, i) {
            out.append(to);
            proof {
                assert(rest.subrange(0, from@.len() as int) =~= text@.subrange(
                    i as int,
                    i + from@.len(),
                ));
                assert(rest.skip(from@.len() as int) =~= text@.skip(i + from@.len()));
            }
            i = i + pattern.len();
        } else {
            out.push(chars[i]);
            proof {
                assert(rest.subrange(0, from@.len() as int) =~= text@.subrange(
                    i as int,
                    i + from@.len(),
                ));
                assert(rest.skip(1) =~= text@.skip(i + 1));
            }
            i = i + 1;
        }
    }
    proof {
        assert(text@.skip(i as int) =~= Seq::<char>::empty());
    }
    out
}

/// The character for the digit `d`.
fn digit(d: u32) -> (c: char)
    requires
        d < 10,
    ensures
        c == digit_char(d as int),
{
    if d == 0 {
        '0'
    } else if d == 1 {
        '1'
    } else if d == 2 {
        '2'
    } else if d == 3 {
        '3'
    } else if d == 4 {
        '4'
    } else if d == 5 {
        '5'
    } else if d == 6 {
        '6'
    } else if d == 7 {
        '7'
    } else if d == 8 {
        '8'
    } else {
        '9'
    }
}

/// Appends the decimal digits of `n` to `out`.
fn push_digits(out: &mut String, n: u32)
    ensures
        final(out)@ == old(out)@ + digits(n as nat),
    decreases n,
{
    if n >= 10 {
        push_digits(out, n / 10);
    }
    out.push(digit(n % 10));
}

/// The decimal numeral of `n`.
pub fn decimal_text(n: i32) -> (out: String)
    ensures
        out@ == decimal(n as int),
{
    let mut out = String::new();
    if n < 0 {
        out.push('-');
        let magnitude: u32 = if n == i32::MIN {
            2147483648u32
        } else {
            (-n) as u32
        };
        push_digits(&mut out, magnitude);
    } else {
        push_digits(&mut out, n as u32);
    }
    out
}

} // verus!
