//! Bytes and characters: where, in the UTF-8 encoding of a text, each of its characters stands.
use crate::text;
use vstd::prelude::*;
use vstd::string::*;

verus! {

/// How many bytes a character takes in UTF-8.
pub open spec fn char_width(c: char) -> nat {
    if c <= '\u{7f}' {
        1
    } else if c <= '\u{7ff}' {
        2
    } else if c <= '\u{ffff}' {
        3
    } else {
        4
    }
}

/// How many bytes a text takes in UTF-8.
pub open spec fn byte_len(s: Seq<char>) -> nat
    decreases s.len(),
{
    if s.len() == 0 {
        0
    } else {
        byte_len(s.drop_last()) + char_width(s.last())
    }
}

/// Whether a byte offset is one at which a character of the text starts, or the text ends.
pub open spec fn is_boundary(s: Seq<char>, offset: int) -> bool {
    exists|k: int| 0 <= k <= s.len() && #[trigger] byte_len(s.take(k)) == offset
}

pub proof fn lemma_byte_len_of_sum(a: Seq<char>, b: Seq<char>)
    ensures
        byte_len(a + b) == byte_len(a) + byte_len(b),
    decreases b.len(),
{
    if b.len() == 0 {
        assert(a + b == a);
    } else {
        lemma_byte_len_of_sum(a, b.drop_last());
        assert((a + b).drop_last() == a + b.drop_last());
        assert((a + b).last() == b.last());
    }
}

pub proof fn lemma_byte_len_grows(s: Seq<char>, i: int, j: int)
    requires
        0 <= i <= j <= s.len(),
    ensures
        byte_len(s.take(i)) <= byte_len(s.take(j)),
        i < j ==> byte_len(s.take(i)) < byte_len(s.take(j)),
    decreases j - i,
{
    if i < j {
        lemma_byte_len_grows(s, i, j - 1);
        assert(s.take(j).drop_last() == s.take(j - 1));
    }
}

proof fn lemma_width_is_that_of_the_encoding(c: char)
    ensures
        vstd::utf8::encode_scalar(c as u32).len() == char_width(c),
        byte_len(seq![c]) == char_width(c),
{
    vstd::utf8::char_is_scalar(c);
    assert(seq![c].drop_last() == Seq::<char>::empty());
    assert(byte_len(Seq::<char>::empty()) == 0);
}

/// The byte length of a text is the length of its UTF-8 encoding.
pub proof fn byte_len_is_that_of_the_encoding(s: Seq<char>)
    ensures
        byte_len(s) == vstd::utf8::encode_utf8(s).len(),
    decreases s.len(),
{
    if s.len() > 0 {
        let c = s[0];
        let rest = s.drop_first();
        byte_len_is_that_of_the_encoding(rest);
        lemma_width_is_that_of_the_encoding(c);
        assert(seq![c] + rest == s);
        lemma_byte_len_of_sum(seq![c], rest);
    }
}

/// How many bytes a character takes in UTF-8.
pub fn width_of(c: char) -> (r: usize)
    ensures
        r == char_width(c),
{
    if c <= '\u{7f}' {
        1
    } else if c <= '\u{7ff}' {
        2
    } else if c <= '\u{ffff}' {
        3
    } else {
        4
    }
}

/// How many bytes a text takes in UTF-8.
pub fn len_of(s: &str) -> (r: usize)
    ensures
        r == byte_len(s@),
{
    proof {
        byte_len_is_that_of_the_encoding(s@);
    }
    s.as_bytes().len()
}

/// Where each character of a text starts, in bytes, and where the text ends.
pub fn offsets(s: &str) -> (r: Vec<usize>)
    ensures
        r.len() == s@.len() + 1,
        forall|k: int| 0 <= k <= s@.len() ==> #[trigger] r@[k] == byte_len(s@.take(k)),
{
    let total: usize = len_of(s);
    let v = text::chars_of(s);
    let mut out: Vec<usize> = Vec::new();
    out.push(0);
    let mut at: usize = 0;
    let mut i: usize = 0;
    assert(s@.take(0) == Seq::<char>::empty());
    while i < v.len()
        invariant
            i <= v.len(),
            v@ == s@,
            total == byte_len(s@),
            at == byte_len(s@.take(i as int)),
            out.len() == i + 1,
            forall|k: int| 0 <= k <= i ==> #[trigger] out@[k] == byte_len(s@.take(k)),
        decreases v.len() - i,
    {
        proof {
            assert(s@.take(i + 1).drop_last() == s@.take(i as int));
            lemma_byte_len_grows(s@, i + 1, s@.len() as int);
            assert(s@.take(s@.len() as int) == s@);
        }
        at = at + width_of(v[i]);
        out.push(at);
        i = i + 1;
    }
    out
}

/// The byte offset of a character, or of the end of the text where it has fewer characters.
pub open spec fn byte_offset(s: Seq<char>, chars: int) -> int {
    if chars >= s.len() {
        byte_len(s) as int
    } else {
        byte_len(s.take(chars)) as int
    }
}

/// The byte offset of a character, or of the end of the text where it has fewer characters.
pub fn byte_of(s: &str, chars: usize) -> (r: usize)
    ensures
        r == byte_offset(s@, chars as int),
        is_boundary(s@, r as int),
{
    let at = offsets(s);
    let n: usize = at.len();
    assert(s@.take(s@.len() as int) == s@);
    if chars >= n - 1 {
        at[n - 1]
    } else {
        at[chars]
    }
}

/// Whether a byte offset is one at which a character starts, or the text ends.
pub fn boundary(s: &str, at: &Vec<usize>, offset: usize) -> (r: bool)
    requires
        at.len() == s@.len() + 1,
        forall|k: int| 0 <= k <= s@.len() ==> #[trigger] at@[k] == byte_len(s@.take(k)),
    ensures
        r == is_boundary(s@, offset as int),
{
    let mut i: usize = 0;
    while i < at.len()
        invariant
            i <= at.len(),
            at.len() == s@.len() + 1,
            forall|k: int| 0 <= k <= s@.len() ==> #[trigger] at@[k] == byte_len(s@.take(k)),
            forall|k: int| 0 <= k < i ==> #[trigger] byte_len(s@.take(k)) != offset,
        decreases at.len() - i,
    {
        if at[i] == offset {
            assert(byte_len(s@.take(i as int)) == offset);
            return true;
        }
        assert(at@[i as int] == byte_len(s@.take(i as int)));
        i = i + 1;
    }
    false
}

/// How many of the first characters of a text fit in `max` bytes.
pub open spec fn fitting(s: Seq<char>, max: nat) -> nat
    decreases s.len(),
{
    if byte_len(s) <= max {
        s.len()
    } else if s.len() == 0 {
        0
    } else {
        fitting(s.drop_last(), max)
    }
}

proof fn lemma_fitting(s: Seq<char>, k: int, max: nat)
    requires
        0 <= k <= s.len(),
        byte_len(s.take(k)) <= max,
        k < s.len() ==> byte_len(s.take(k + 1)) > max,
    ensures
        fitting(s, max) == k,
    decreases s.len(),
{
    assert(s.take(s.len() as int) == s);
    if k < s.len() {
        lemma_byte_len_grows(s, k + 1, s.len() as int);
        let t = s.drop_last();
        assert(t.take(k) == s.take(k));
        if k < t.len() {
            assert(t.take(k + 1) == s.take(k + 1));
        }
        lemma_fitting(t, k, max);
    }
}

/// How many of the first characters of a text fit in `max` bytes.
pub fn fit(v: &Vec<char>, max: usize) -> (r: usize)
    requires
        max <= usize::MAX - 4,
    ensures
        r == fitting(v@, max as nat),
        r <= v.len(),
{
    let mut i: usize = 0;
    let mut bytes: usize = 0;
    assert(v@.take(0) == Seq::<char>::empty());
    while i < v.len()
        invariant
            i <= v.len(),
            max <= usize::MAX - 4,
            bytes == byte_len(v@.take(i as int)),
            bytes <= max,
        decreases v.len() - i,
    {
        let w: usize = width_of(v[i]);
        assert(v@.take(i + 1).drop_last() == v@.take(i as int));
        if bytes + w > max {
            proof {
                lemma_fitting(v@, i as int, max as nat);
            }
            return i;
        }
        bytes = bytes + w;
        i = i + 1;
    }
    proof {
        lemma_fitting(v@, i as int, max as nat);
    }
    i
}

pub proof fn lemma_fitting_is_short(s: Seq<char>, max: nat)
    requires
        fitting(s, max) < s.len(),
    ensures
        byte_len(s) > max,
{
}

/// What fits, fits; and one more character would not.
pub proof fn lemma_fitting_fits(s: Seq<char>, max: nat)
    ensures
        fitting(s, max) <= s.len(),
        byte_len(s.take(fitting(s, max) as int)) <= max,
        fitting(s, max) < s.len() ==> byte_len(s.take(fitting(s, max) as int + 1)) > max,
    decreases s.len(),
{
    assert(s.take(s.len() as int) == s);
    if byte_len(s) > max {
        if s.len() > 0 {
            let t = s.drop_last();
            lemma_fitting_fits(t, max);
            let k = fitting(t, max) as int;
            assert(t.take(k) == s.take(k));
            if k < t.len() {
                assert(t.take(k + 1) == s.take(k + 1));
            }
        }
    }
}

/// The character that stands in the middle of a text, counted in bytes: the last one that starts
/// at half of its length or before.
pub open spec fn middle(s: Seq<char>) -> int {
    fitting(s, byte_len(s) / 2) as int
}

} // verus!
