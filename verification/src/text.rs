//! Text, modelled as sequences of characters.
//!
//! Every contract of the library that speaks of text speaks of `Seq<char>`: a character is the
//! unit in which a name is cut, a column is padded and a field is split. The spec functions of
//! this module say what those operations mean; the executable functions beside them compute it.
use vstd::prelude::*;
use vstd::string::*;

verus! {

/// `String::push` puts one character behind the text.
pub assume_specification[ String::push ](s: &mut String, c: char)
    ensures
        final(s)@ == old(s)@.push(c),
;

/// What `str::to_lowercase` makes of a text.
pub uninterp spec fn lowercase(s: Seq<char>) -> Seq<char>;

/// `str::to_lowercase`: the lower case of a text, by the Unicode tables that std carries. It is
/// a function of the text alone; nothing more is claimed of it.
#[verifier::external_body]
pub(crate) fn to_lowercase(s: &str) -> (r: String)
    ensures
        r@ == lowercase(s@),
{
    s.to_lowercase()
}

// ---------------------------------------------------------------------------------------------
// Views of lists of texts
// ---------------------------------------------------------------------------------------------

/// The texts of a list.
pub open spec fn texts(v: Seq<String>) -> Seq<Seq<char>> {
    Seq::new(v.len(), |i: int| v[i]@)
}

/// The text of an optional value.
pub open spec fn opt_text(o: Option<String>) -> Option<Seq<char>> {
    match o {
        Some(s) => Some(s@),
        None => None,
    }
}

/// The text of an optional borrowed value.
pub open spec fn opt_str(o: Option<&str>) -> Option<Seq<char>> {
    match o {
        Some(s) => Some(s@),
        None => None,
    }
}

/// A copy of an optional text.
pub fn copy_opt(o: &Option<String>) -> (r: Option<String>)
    ensures
        r == *o,
{
    match o {
        Some(s) => Some(s.clone()),
        None => None,
    }
}

/// A copy of a list of texts.
pub fn copy_list(v: &Vec<String>) -> (r: Vec<String>)
    ensures
        r@ == v@,
{
    let mut out: Vec<String> = Vec::new();
    let mut i: usize = 0;
    while i < v.len()
        invariant
            i <= v.len(),
            out@ == v@.take(i as int),
        decreases v.len() - i,
    {
        out.push(v[i].clone());
        i = i + 1;
    }
    assert(v@.take(v.len() as int) == v@);
    out
}

/// Whether two texts are the same.
pub fn same(a: &str, b: &str) -> (r: bool)
    ensures
        r == (a@ == b@),
{
    let left = chars_of(a);
    let right = chars_of(b);
    if left.len() != right.len() {
        return false;
    }
    let mut i: usize = 0;
    while i < left.len()
        invariant
            i <= left.len(),
            left.len() == right.len(),
            left@ == a@,
            right@ == b@,
            forall|k: int| 0 <= k < i ==> left@[k] == right@[k],
        decreases left.len() - i,
    {
        if left[i] != right[i] {
            return false;
        }
        i = i + 1;
    }
    assert(a@ =~= b@);
    true
}

/// Whether two optional texts are the same.
pub fn same_opt(a: &Option<String>, b: &Option<String>) -> (r: bool)
    ensures
        r == (opt_text(*a) == opt_text(*b)),
{
    match (a, b) {
        (Some(a), Some(b)) => same(a.as_str(), b.as_str()),
        (None, None) => true,
        _ => false,
    }
}

// ---------------------------------------------------------------------------------------------
// Characters in a vector
// ---------------------------------------------------------------------------------------------

/// The characters of a text, one by one.
pub fn chars_of(s: &str) -> (r: Vec<char>)
    ensures
        r@ == s@,
{
    let mut out: Vec<char> = Vec::new();
    for c in it: s.chars()
        invariant
            it.seq() == s@,
            out@ == s@.take(it.index() as int),
    {
        out.push(c);
        assert(s@.take(it.index() + 1) == s@.take(it.index() as int).push(c));
    }
    assert(s@.take(s@.len() as int) == s@);
    out
}

/// The text made of the characters `from..to` of a vector.
pub fn text_of(v: &Vec<char>, from: usize, to: usize) -> (r: String)
    requires
        from <= to <= v.len(),
    ensures
        r@ == v@.subrange(from as int, to as int),
{
    let mut out = String::new();
    let mut i: usize = from;
    while i < to
        invariant
            from <= i <= to <= v.len(),
            out@ == v@.subrange(from as int, i as int),
        decreases to - i,
    {
        out.push(v[i]);
        i = i + 1;
        assert(v@.subrange(from as int, i as int) == v@.subrange(from as int, i - 1).push(
            v@[i - 1],
        ));
    }
    out
}

// ---------------------------------------------------------------------------------------------
// White space
// ---------------------------------------------------------------------------------------------

/// The characters that Unicode calls white space.
pub open spec fn is_space(c: char) -> bool {
    ||| '\u{9}' <= c <= '\u{d}'
    ||| c == ' '
    ||| c == '\u{85}'
    ||| c == '\u{a0}'
    ||| c == '\u{1680}'
    ||| '\u{2000}' <= c <= '\u{200a}'
    ||| c == '\u{2028}'
    ||| c == '\u{2029}'
    ||| c == '\u{202f}'
    ||| c == '\u{205f}'
    ||| c == '\u{3000}'
}

/// Whether a character is white space.
pub fn space(c: char) -> (r: bool)
    ensures
        r == is_space(c),
{
    ('\u{9}' <= c && c <= '\u{d}') || c == ' ' || c == '\u{85}' || c == '\u{a0}' || c == '\u{1680}'
        || ('\u{2000}' <= c && c <= '\u{200a}') || c == '\u{2028}' || c == '\u{2029}' || c
        == '\u{202f}' || c == '\u{205f}' || c == '\u{3000}'
}

/// A text without the white space at its start.
pub open spec fn trim_start(s: Seq<char>) -> Seq<char>
    decreases s.len(),
{
    if s.len() > 0 && is_space(s[0]) {
        trim_start(s.drop_first())
    } else {
        s
    }
}

/// A text without the white space at its end.
pub open spec fn trim_end(s: Seq<char>) -> Seq<char>
    decreases s.len(),
{
    if s.len() > 0 && is_space(s.last()) {
        trim_end(s.drop_last())
    } else {
        s
    }
}

/// A text without the white space around it.
pub open spec fn trimmed(s: Seq<char>) -> Seq<char> {
    trim_end(trim_start(s))
}

/// A text without the white space around it.
pub fn trim(s: &str) -> (r: String)
    ensures
        r@ == trimmed(s@),
{
    let v = chars_of(s);
    let mut from: usize = 0;
    assert(v@.skip(0) == v@);
    while from < v.len() && space(v[from])
        invariant
            from <= v.len(),
            v@ == s@,
            trim_start(v@.skip(from as int)) == trim_start(v@),
        decreases v.len() - from,
    {
        assert(v@.skip(from as int).drop_first() == v@.skip(from + 1));
        from = from + 1;
    }
    let ghost body = v@.skip(from as int);
    assert(body == trim_start(v@));
    let mut to: usize = v.len();
    assert(v@.subrange(from as int, to as int) == body);
    while from < to && space(v[to - 1])
        invariant
            from <= to <= v.len(),
            v@ == s@,
            trim_end(v@.subrange(from as int, to as int)) == trim_end(body),
        decreases to,
    {
        assert(v@.subrange(from as int, to as int).drop_last() == v@.subrange(
            from as int,
            to - 1,
        ));
        to = to - 1;
    }
    assert(v@.subrange(from as int, to as int) == trim_end(body));
    text_of(&v, from, to)
}

// ---------------------------------------------------------------------------------------------
// Decimal numbers
// ---------------------------------------------------------------------------------------------

/// The digit that stands for a number under ten.
pub open spec fn digit(n: int) -> char {
    (('0' as int) + n) as char
}

/// A natural number in decimal, without leading zeros.
pub open spec fn dec(n: nat) -> Seq<char>
    decreases n,
{
    if n < 10 {
        seq![digit(n as int)]
    } else {
        dec((n / 10) as nat).push(digit((n % 10) as int))
    }
}

/// An integer in decimal, with a minus sign where it is negative.
pub open spec fn signed_dec(n: int) -> Seq<char> {
    if n < 0 {
        seq!['-'] + dec((-n) as nat)
    } else {
        dec(n as nat)
    }
}

fn digit_char(n: u64) -> (r: char)
    requires
        n < 10,
    ensures
        r == digit(n as int),
{
    match n {
        0 => '0',
        1 => '1',
        2 => '2',
        3 => '3',
        4 => '4',
        5 => '5',
        6 => '6',
        7 => '7',
        8 => '8',
        _ => '9',
    }
}

/// A natural number in decimal.
pub fn decimal(n: u64) -> (r: String)
    ensures
        r@ == dec(n as nat),
    decreases n,
{
    if n < 10 {
        let mut out = String::new();
        out.push(digit_char(n));
        assert(out@ == dec(n as nat));
        out
    } else {
        let mut out = decimal(n / 10);
        out.push(digit_char(n % 10));
        out
    }
}

/// A count in decimal.
pub fn decimal_usize(n: usize) -> (r: String)
    ensures
        r@ == dec(n as nat),
{
    decimal(n as u64)
}

/// An integer in decimal.
pub fn decimal_signed(n: i64) -> (r: String)
    ensures
        r@ == signed_dec(n as int),
{
    if n >= 0 {
        decimal(n as u64)
    } else {
        let mut out = "-".to_owned();
        proof {
            reveal_strlit("-");
        }
        assert("-"@ == seq!['-']);
        if n == i64::MIN {
            out.append(decimal(9223372036854775808u64).as_str());
        } else {
            out.append(decimal((-n) as u64).as_str());
        }
        out
    }
}

// ---------------------------------------------------------------------------------------------
// Padding
// ---------------------------------------------------------------------------------------------

/// `n` times the same character.
pub open spec fn repeated(c: char, n: nat) -> Seq<char> {
    Seq::new(n, |i: int| c)
}

/// A text written several times over.
pub open spec fn times(s: Seq<char>, n: nat) -> Seq<char>
    decreases n,
{
    if n == 0 {
        Seq::empty()
    } else {
        times(s, (n - 1) as nat) + s
    }
}

/// A text written several times over.
pub fn repeat_text(s: &str, n: usize) -> (r: String)
    ensures
        r@ == times(s@, n as nat),
{
    let mut out = String::new();
    let mut i: usize = 0;
    while i < n
        invariant
            i <= n,
            out@ == times(s@, i as nat),
        decreases n - i,
    {
        out.append(s);
        i = i + 1;
    }
    out
}

/// A text widened to `width` characters by `c` on its left.
pub open spec fn padded_left(s: Seq<char>, c: char, width: nat) -> Seq<char> {
    if s.len() >= width {
        s
    } else {
        repeated(c, (width - s.len()) as nat) + s
    }
}

/// A text widened to `width` characters by `c` on its right.
pub open spec fn padded_right(s: Seq<char>, c: char, width: nat) -> Seq<char> {
    if s.len() >= width {
        s
    } else {
        s + repeated(c, (width - s.len()) as nat)
    }
}

/// `n` times the same character.
pub fn repeat(c: char, n: usize) -> (r: String)
    ensures
        r@ == repeated(c, n as nat),
{
    let mut out = String::new();
    let mut i: usize = 0;
    while i < n
        invariant
            i <= n,
            out@ == repeated(c, i as nat),
        decreases n - i,
    {
        out.push(c);
        i = i + 1;
        assert(out@ == repeated(c, i as nat));
    }
    out
}

/// A text widened to `width` characters by `c` on its left.
pub fn pad_left(s: &str, c: char, width: usize) -> (r: String)
    ensures
        r@ == padded_left(s@, c, width as nat),
{
    let n: usize = s.unicode_len();
    if n >= width {
        s.to_owned()
    } else {
        let mut out = repeat(c, width - n);
        out.append(s);
        out
    }
}

/// A text widened to `width` characters by `c` on its right.
pub fn pad_right(s: &str, c: char, width: usize) -> (r: String)
    ensures
        r@ == padded_right(s@, c, width as nat),
{
    let n: usize = s.unicode_len();
    let mut out = s.to_owned();
    if n < width {
        out.append(repeat(c, width - n).as_str());
    }
    out
}

// ---------------------------------------------------------------------------------------------
// Splitting and joining
// ---------------------------------------------------------------------------------------------

/// A text cut at every `sep`: one more piece than there are separators.
pub open spec fn split(s: Seq<char>, sep: char) -> Seq<Seq<char>>
    decreases s.len(),
{
    if s.len() == 0 {
        seq![Seq::empty()]
    } else {
        let before = split(s.drop_last(), sep);
        if s.last() == sep {
            before.push(Seq::empty())
        } else {
            before.drop_last().push(before.last().push(s.last()))
        }
    }
}

/// A line without the carriage return that its terminator may start with.
pub open spec fn without_cr(s: Seq<char>) -> Seq<char> {
    if s.len() > 0 && s.last() == '\r' {
        s.drop_last()
    } else {
        s
    }
}

/// The lines of a text: each ends at a line feed, or at a carriage return and a line feed; the
/// last one may lack its terminator.
pub open spec fn lines(s: Seq<char>) -> Seq<Seq<char>> {
    let pieces = split(s, '\n');
    let whole = Seq::new(
        (pieces.len() - 1) as nat,
        |i: int| without_cr(pieces[i]),
    );
    if pieces.last().len() == 0 {
        whole
    } else {
        whole.push(pieces.last())
    }
}

/// A text cut at every `sep`.
pub fn split_at(s: &str, sep: char) -> (r: Vec<String>)
    ensures
        texts(r@) == split(s@, sep),
        r.len() >= 1,
{
    let v = chars_of(s);
    let mut out: Vec<String> = Vec::new();
    let mut current = String::new();
    let mut i: usize = 0;
    assert(v@.take(0) == Seq::<char>::empty());
    while i < v.len()
        invariant
            i <= v.len(),
            v@ == s@,
            texts(out@).push(current@) == split(v@.take(i as int), sep),
        decreases v.len() - i,
    {
        let ghost before = v@.take(i as int);
        assert(v@.take(i + 1).drop_last() == before);
        assert(v@.take(i + 1).last() == v@[i as int]);
        if v[i] == sep {
            let ghost old_out = out@;
            let ghost old_current = current@;
            out.push(current);
            current = String::new();
            assert(texts(out@) == texts(old_out).push(old_current));
        } else {
            let ghost old_current = current@;
            current.push(v[i]);
            assert(texts(out@).push(old_current).drop_last() == texts(out@));
            assert(texts(out@).push(old_current).last() == old_current);
        }
        i = i + 1;
    }
    assert(v@.take(i as int) == v@);
    let ghost old_out = out@;
    out.push(current);
    assert(texts(out@) == texts(old_out).push(current@));
    out
}

/// The lines of a text.
pub fn lines_of(s: &str) -> (r: Vec<String>)
    ensures
        texts(r@) == lines(s@),
{
    let mut pieces = split_at(s, '\n');
    let ghost all = texts(pieces@);
    let last = pieces.pop().unwrap();
    assert(texts(pieces@) == all.drop_last());
    let ghost want = Seq::new((all.len() - 1) as nat, |i: int| without_cr(all[i]));
    let mut out: Vec<String> = Vec::new();
    let mut i: usize = 0;
    while i < pieces.len()
        invariant
            i <= pieces.len(),
            texts(pieces@) == all.drop_last(),
            all.len() == pieces.len() + 1,
            want == Seq::new((all.len() - 1) as nat, |i: int| without_cr(all[i])),
            texts(out@) == want.take(i as int),
        decreases pieces.len() - i,
    {
        let v = chars_of(pieces[i].as_str());
        assert(v@ == texts(pieces@)[i as int]);
        let n: usize = v.len();
        let ghost old_out = out@;
        let line = if n > 0 && v[n - 1] == '\r' {
            text_of(&v, 0, n - 1)
        } else {
            text_of(&v, 0, n)
        };
        assert(v@.subrange(0, n as int) == v@);
        assert(n > 0 ==> v@.subrange(0, n - 1) == v@.drop_last());
        assert(line@ == without_cr(all[i as int]));
        out.push(line);
        i = i + 1;
        assert(texts(out@) == texts(old_out).push(line@));
        assert(want.take(i as int) == want.take(i - 1).push(want[i - 1]));
    }
    assert(want.take(i as int) == want);
    assert(last@ == all.last());
    if last.as_str().unicode_len() > 0 {
        let ghost old_out = out@;
        out.push(last);
        assert(texts(out@) == texts(old_out).push(last@));
    }
    out
}

/// The texts of a list, one behind the other, with `sep` between two of them.
pub open spec fn joined(parts: Seq<Seq<char>>, sep: Seq<char>) -> Seq<char>
    decreases parts.len(),
{
    if parts.len() == 0 {
        Seq::empty()
    } else if parts.len() == 1 {
        parts[0]
    } else {
        joined(parts.drop_last(), sep) + sep + parts.last()
    }
}

/// The texts of a list, one behind the other, with `sep` between two of them.
pub fn join(parts: &Vec<String>, sep: &str) -> (r: String)
    ensures
        r@ == joined(texts(parts@), sep@),
{
    let mut out = String::new();
    let mut i: usize = 0;
    let ghost all = texts(parts@);
    assert(all.take(0) == Seq::<Seq<char>>::empty());
    while i < parts.len()
        invariant
            i <= parts.len(),
            all == texts(parts@),
            out@ == joined(all.take(i as int), sep@),
        decreases parts.len() - i,
    {
        assert(all.take(i + 1).drop_last() == all.take(i as int));
        if i > 0 {
            out.append(sep);
        }
        let ghost before = out@;
        out.append(parts[i].as_str());
        assert(i == 0 ==> out@ == all[0]);
        i = i + 1;
    }
    assert(all.take(i as int) == all);
    out
}

// ---------------------------------------------------------------------------------------------
// Prefixes and occurrences
// ---------------------------------------------------------------------------------------------

/// Whether a text starts with another.
pub open spec fn starts(s: Seq<char>, prefix: Seq<char>) -> bool {
    prefix.len() <= s.len() && s.take(prefix.len() as int) == prefix
}

/// Whether a text occurs in another.
pub open spec fn occurs(needle: Seq<char>, s: Seq<char>) -> bool {
    exists|i: int| 0 <= i && i + needle.len() <= s.len() && #[trigger] s.subrange(i, i + needle.len())
        == needle
}

/// Whether the characters of `s` from `at` on start with those of `p`.
fn starts_from(s: &Vec<char>, at: usize, p: &Vec<char>) -> (r: bool)
    requires
        at <= s.len(),
    ensures
        r == (at + p.len() <= s.len() && s@.subrange(at as int, at + p.len()) == p@),
{
    if p.len() > s.len() - at {
        return false;
    }
    let mut i: usize = 0;
    while i < p.len()
        invariant
            i <= p.len(),
            at + p.len() <= s.len(),
            forall|k: int| 0 <= k < i ==> s@[at + k] == p@[k],
        decreases p.len() - i,
    {
        if s[at + i] != p[i] {
            assert(s@.subrange(at as int, at + p.len())[i as int] != p@[i as int]);
            return false;
        }
        i = i + 1;
    }
    assert(s@.subrange(at as int, at + p.len()) =~= p@);
    true
}

/// Whether a text starts with another.
pub fn starts_with(s: &str, prefix: &str) -> (r: bool)
    ensures
        r == starts(s@, prefix@),
{
    let v = chars_of(s);
    let p = chars_of(prefix);
    assert(p.len() <= v.len() ==> v@.take(p@.len() as int) == v@.subrange(0, p@.len() as int));
    starts_from(&v, 0, &p)
}

/// What follows a prefix, where the text starts with it.
pub fn strip_prefix(s: &str, prefix: &str) -> (r: Option<String>)
    ensures
        match r {
            Some(rest) => starts(s@, prefix@) && rest@ == s@.skip(prefix@.len() as int),
            None => !starts(s@, prefix@),
        },
{
    if starts_with(s, prefix) {
        let v = chars_of(s);
        let n: usize = prefix.unicode_len();
        assert(v@.subrange(n as int, v@.len() as int) == v@.skip(n as int));
        let len: usize = v.len();
        Some(text_of(&v, n, len))
    } else {
        None
    }
}

// ---------------------------------------------------------------------------------------------
// Reading numbers
// ---------------------------------------------------------------------------------------------

/// The value of a text of decimal digits.
pub open spec fn digits_value(s: Seq<char>) -> nat
    decreases s.len(),
{
    if s.len() == 0 {
        0
    } else {
        (digits_value(s.drop_last()) * 10 + (s.last() as int - '0' as int)) as nat
    }
}

/// Whether a text is made of decimal digits, and holds at least one.
pub open spec fn is_number(s: Seq<char>) -> bool {
    s.len() > 0 && forall|i: int| 0 <= i < s.len() ==> '0' <= #[trigger] s[i] <= '9'
}

/// A text without the plus sign that it may start with.
pub open spec fn unsigned(s: Seq<char>) -> Seq<char> {
    if s.len() > 0 && s[0] == '+' {
        s.drop_first()
    } else {
        s
    }
}

/// The number that a text names: an optional plus sign, then digits, up to a bound.
pub open spec fn number_up_to(s: Seq<char>, max: nat) -> Option<nat> {
    let body = unsigned(s);
    if is_number(body) && digits_value(body) <= max {
        Some(digits_value(body))
    } else {
        None
    }
}

proof fn lemma_digits_grow(s: Seq<char>, i: int)
    requires
        is_number(s),
        0 <= i <= s.len(),
    ensures
        digits_value(s.take(i)) <= digits_value(s),
    decreases s.len() - i,
{
    if i < s.len() {
        lemma_digits_grow(s, i + 1);
        assert(s.take(i + 1).drop_last() == s.take(i));
        assert('0' <= s[i] <= '9');
    } else {
        assert(s.take(i) == s);
    }
}

/// The number that a text names.
pub fn parse_up_to(s: &str, max: u64) -> (r: Option<u64>)
    ensures
        match r {
            Some(n) => number_up_to(s@, max as nat) == Some(n as nat),
            None => number_up_to(s@, max as nat) is None,
        },
{
    let v = chars_of(s);
    let from: usize = if v.len() > 0 && v[0] == '+' {
        1
    } else {
        0
    };
    let ghost body = unsigned(s@);
    assert(body == v@.subrange(from as int, v@.len() as int));
    if from == v.len() {
        return None;
    }
    let mut value: u64 = 0;
    let mut i: usize = from;
    assert(body.take(0) == Seq::<char>::empty());
    while i < v.len()
        invariant
            from <= i <= v.len(),
            body.len() == v.len() - from,
            body.len() > 0,
            forall|k: int| 0 <= k < body.len() ==> #[trigger] body[k] == v@[from + k],
            forall|k: int| 0 <= k < i - from ==> '0' <= #[trigger] body[k] <= '9',
            value == digits_value(body.take(i - from)),
            value <= max,
            body == unsigned(s@),
        decreases v.len() - i,
    {
        let c = v[i];
        let ghost k = i - from;
        assert(body[k] == c);
        if c < '0' || c > '9' {
            return None;
        }
        assert(body.take(k + 1).drop_last() == body.take(k));
        assert(body.take(k + 1).last() == c);
        let next: u128 = value as u128 * 10 + (c as u32 - '0' as u32) as u128;
        if next > max as u128 {
            proof {
                if is_number(body) {
                    lemma_digits_grow(body, k + 1);
                }
            }
            return None;
        }
        value = next as u64;
        i = i + 1;
    }
    assert(body.take(i - from) == body);
    Some(value)
}

// ---------------------------------------------------------------------------------------------
// The size of letters
// ---------------------------------------------------------------------------------------------

/// A letter of the Latin alphabet, small.
pub open spec fn small(c: char) -> char {
    if 'A' <= c <= 'Z' {
        ((c as u32 + 32) as u32) as char
    } else {
        c
    }
}

/// Whether two texts are the same but for the size of their Latin letters.
pub open spec fn same_but_case(a: Seq<char>, b: Seq<char>) -> bool {
    a.len() == b.len() && forall|i: int| 0 <= i < a.len() ==> small(#[trigger] a[i]) == small(b[i])
}

fn small_of(c: char) -> (r: char)
    ensures
        r == small(c),
{
    if 'A' <= c && c <= 'Z' {
        let code: u8 = c as u8;
        (code + 32) as char
    } else {
        c
    }
}

/// Whether two texts are the same but for the size of their Latin letters.
pub fn same_letters(a: &str, b: &str) -> (r: bool)
    ensures
        r == same_but_case(a@, b@),
{
    let left = chars_of(a);
    let right = chars_of(b);
    if left.len() != right.len() {
        return false;
    }
    let mut i: usize = 0;
    while i < left.len()
        invariant
            left@ == a@,
            right@ == b@,
            left.len() == right.len(),
            i <= left.len(),
            forall|k: int| 0 <= k < i ==> small(#[trigger] a@[k]) == small(b@[k]),
        decreases left.len() - i,
    {
        if small_of(left[i]) != small_of(right[i]) {
            assert(small(a@[i as int]) != small(b@[i as int]));
            return false;
        }
        i = i + 1;
    }
    true
}

// ---------------------------------------------------------------------------------------------
// Lines, one after another
// ---------------------------------------------------------------------------------------------

/// Adds a line.
pub fn say(out: &mut Vec<String>, line: String)
    ensures
        texts(final(out)@) == texts(old(out)@).push(line@),
{
    let ghost before = out@;
    out.push(line);
    assert(texts(out@) == texts(before).push(line@));
}

/// Lines, followed by others that each have something put before them.
pub open spec fn each_said(before: Seq<Seq<char>>, lead: Seq<char>, lines: Seq<Seq<char>>) -> Seq<
    Seq<char>,
>
    decreases lines.len(),
{
    if lines.len() == 0 {
        before
    } else {
        each_said(before, lead, lines.drop_last()).push(lead + lines.last())
    }
}

/// Adds lines, with something put before each.
pub fn say_each(out: &mut Vec<String>, lead: &str, lines: &Vec<String>)
    ensures
        texts(final(out)@) == each_said(texts(old(out)@), lead@, texts(lines@)),
{
    let ghost before = texts(out@);
    let mut i: usize = 0;
    assert(texts(lines@.take(0)) == Seq::<Seq<char>>::empty());
    while i < lines.len()
        invariant
            i <= lines.len(),
            texts(out@) == each_said(before, lead@, texts(lines@.take(i as int))),
        decreases lines.len() - i,
    {
        let mut line = lead.to_owned();
        line.append(lines[i].as_str());
        say(out, line);
        i = i + 1;
        assert(texts(lines@.take(i as int)).drop_last() == texts(lines@.take(i - 1)));
        assert(texts(lines@.take(i as int)).last() == lines@[i - 1]@);
    }
    assert(lines@.take(lines.len() as int) == lines@);
}

} // verus!
