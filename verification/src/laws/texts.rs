//! Texts: what is cut comes back when it is joined, what is printed is read again.
use crate::dates;
use crate::dto;
use crate::dto::{Attached, Row};
use crate::quote;
use crate::recipients;
use crate::text;
use crate::utf8;
use vstd::prelude::*;
use vstd::string::*;

verus! {

// ---------------------------------------------------------------------------------------------
// Cutting and joining
// ---------------------------------------------------------------------------------------------

proof fn lemma_joined_push(parts: Seq<Seq<char>>, more: Seq<char>, sep: Seq<char>)
    requires
        parts.len() >= 1,
    ensures
        text::joined(parts.push(more), sep) == text::joined(parts, sep) + sep + more,
{
    assert(parts.push(more).drop_last() == parts);
}

proof fn lemma_joined_grown(parts: Seq<Seq<char>>, c: char, sep: Seq<char>)
    requires
        parts.len() >= 1,
    ensures
        text::joined(parts.drop_last().push(parts.last().push(c)), sep) == text::joined(
            parts,
            sep,
        ).push(c),
{
    let grown = parts.drop_last().push(parts.last().push(c));
    if parts.len() > 1 {
        assert(grown.drop_last() == parts.drop_last());
        let before = text::joined(parts.drop_last(), sep) + sep;
        assert(before + parts.last().push(c) == (before + parts.last()).push(c));
    }
}

proof fn lemma_split_joins(s: Seq<char>, sep: char)
    ensures
        text::joined(text::split(s, sep), seq![sep]) == s,
    decreases s.len(),
{
    if s.len() > 0 {
        let short = s.drop_last();
        let before = text::split(short, sep);
        quote::lemma_split_pieces(short, sep);
        lemma_split_joins(short, sep);
        assert(short.push(s.last()) == s);
        if s.last() == sep {
            lemma_joined_push(before, Seq::empty(), seq![sep]);
            assert(short + seq![sep] + Seq::<char>::empty() == s);
        } else {
            lemma_joined_grown(before, s.last(), seq![sep]);
        }
    }
}

/// A text that is cut loses nothing but its separators: joined with them, its pieces are the text
/// again, and none of them holds one.
pub proof fn a_cut_text_is_whole_again_when_it_is_joined(s: &str, sep: char, pieces: Vec<String>)
    requires
        call_ensures(text::split_at, (s, sep), pieces),
    ensures
        text::joined(text::texts(pieces@), seq![sep]) == s@,
        pieces@.len() >= 1,
        forall|i: int| 0 <= i < pieces@.len() ==> !(#[trigger] pieces@[i])@.contains(sep),
{
    lemma_split_joins(s@, sep);
    quote::lemma_split_pieces(s@, sep);
    assert forall|i: int| 0 <= i < pieces@.len() implies !(#[trigger] pieces@[i])@.contains(sep) by {
        assert(text::texts(pieces@)[i] == pieces@[i]@);
    }
}

proof fn lemma_joined_splits(parts: Seq<Seq<char>>, sep: char)
    requires
        parts.len() >= 1,
        forall|i: int| 0 <= i < parts.len() ==> !(#[trigger] parts[i]).contains(sep),
    ensures
        text::split(text::joined(parts, seq![sep]), sep) == parts,
    decreases parts.len(),
{
    let last = parts.last();
    assert(!parts[parts.len() - 1].contains(sep));
    if parts.len() == 1 {
        quote::lemma_split_append(Seq::empty(), last, sep);
        assert(Seq::<char>::empty() + last == last);
        assert(text::split(Seq::<char>::empty(), sep) == seq![Seq::<char>::empty()]);
        assert(text::split(last, sep) == parts);
    } else {
        let front = parts.drop_last();
        assert forall|i: int| 0 <= i < front.len() implies !(#[trigger] front[i]).contains(sep) by {
            assert(front[i] == parts[i]);
        }
        lemma_joined_splits(front, sep);
        let before = text::joined(front, seq![sep]);
        let ended = before.push(sep);
        assert(before + seq![sep] == ended);
        assert(ended.drop_last() == before);
        assert(text::split(ended, sep) == front.push(Seq::empty()));
        quote::lemma_split_append(ended, last, sep);
        assert(Seq::<char>::empty() + last == last);
        assert(front.push(Seq::empty()).drop_last().push(last) == parts);
    }
}

/// Texts that are joined come apart again at what joins them, each as it was and in order.
pub proof fn joined_texts_come_apart_again(parts: &Vec<String>, sep: char, between: &str, whole: String)
    requires
        call_ensures(text::join, (parts, between), whole),
        between@ == seq![sep],
        parts@.len() >= 1,
        forall|i: int| 0 <= i < parts@.len() ==> !(#[trigger] parts@[i])@.contains(sep),
    ensures
        text::split(whole@, sep) == text::texts(parts@),
{
    assert forall|i: int| 0 <= i < parts@.len() implies !(#[trigger] text::texts(
        parts@,
    )[i]).contains(sep) by {
        assert(!parts@[i]@.contains(sep));
    }
    lemma_joined_splits(text::texts(parts@), sep);
}

/// Lines, each with its end.
pub open spec fn terminated(lines: Seq<Seq<char>>) -> Seq<char>
    decreases lines.len(),
{
    if lines.len() == 0 {
        Seq::empty()
    } else {
        terminated(lines.drop_last()) + lines.last().push('\n')
    }
}

proof fn lemma_terminated_splits(lines: Seq<Seq<char>>)
    requires
        forall|i: int| 0 <= i < lines.len() ==> !(#[trigger] lines[i]).contains('\n'),
    ensures
        text::split(terminated(lines), '\n') == lines.push(Seq::empty()),
    decreases lines.len(),
{
    if lines.len() == 0 {
        assert(text::split(Seq::<char>::empty(), '\n') == seq![Seq::<char>::empty()]);
        assert(lines.push(Seq::<char>::empty()) == seq![Seq::<char>::empty()]);
    } else {
        let front = lines.drop_last();
        let last = lines.last();
        assert(!lines[lines.len() - 1].contains('\n'));
        assert forall|i: int| 0 <= i < front.len() implies !(#[trigger] front[i]).contains('\n') by {
            assert(front[i] == lines[i]);
        }
        lemma_terminated_splits(front);
        quote::lemma_split_append(terminated(front), last, '\n');
        let whole = terminated(lines);
        assert(whole.drop_last() == terminated(front) + last);
        assert(whole.last() == '\n');
        assert(Seq::<char>::empty() + last == last);
        assert(front.push(Seq::<char>::empty()).drop_last() == front);
        assert(front.push(last) == lines);
    }
}

/// The lines of a text are what stands between its line ends, in order, empty ones included; the
/// last one counts whether it has its end or not.
pub proof fn the_lines_of_a_text_are_those_it_was_made_of(
    lines: Seq<Seq<char>>,
    last: Seq<char>,
    ended: &str,
    open: &str,
    a: Vec<String>,
    b: Vec<String>,
)
    requires
        forall|i: int|
            0 <= i < lines.len() ==> !(#[trigger] lines[i]).contains('\n') && !lines[i].contains(
                '\r',
            ),
        last.len() > 0,
        !last.contains('\n'),
        ended@ == terminated(lines),
        open@ == terminated(lines) + last,
        call_ensures(text::lines_of, (ended,), a),
        call_ensures(text::lines_of, (open,), b),
    ensures
        text::texts(a@) == lines,
        text::texts(b@) == lines.push(last),
{
    lemma_terminated_splits(lines);
    assert forall|i: int| 0 <= i < lines.len() implies text::without_cr(#[trigger] lines[i])
        == lines[i] by {
        assert(!lines[i].contains('\r'));
        if lines[i].len() > 0 {
            assert(lines[i][lines[i].len() - 1] == lines[i].last());
        }
    }
    assert(text::lines(ended@) == lines);
    quote::lemma_split_append(terminated(lines), last, '\n');
    assert(Seq::<char>::empty() + last == last);
    assert(lines.push(Seq::<char>::empty()).drop_last() == lines);
    let pieces = text::split(open@, '\n');
    assert(pieces == lines.push(last));
    let whole = Seq::new((pieces.len() - 1) as nat, |i: int| text::without_cr(pieces[i]));
    assert(whole == lines);
}

/// A text that is trimmed loses the white space around it and nothing else.
pub proof fn a_trimmed_text_loses_only_white_space(s: &str, t: String) -> (at: int)
    requires
        call_ensures(text::trim, (s,), t),
    ensures
        0 <= at,
        at + t@.len() <= s@.len(),
        t@ == s@.subrange(at, at + t@.len()),
        forall|k: int| 0 <= k < at ==> text::is_space(#[trigger] s@[k]),
        forall|k: int| at + t@.len() <= k < s@.len() ==> text::is_space(#[trigger] s@[k]),
        t@.len() > 0 ==> !text::is_space(t@[0]) && !text::is_space(t@.last()),
{
    let start = text::trim_start(s@);
    lemma_trim_start(s@);
    lemma_trim_end(start);
    let at = s@.len() - start.len();
    let end = t@.len() as int;
    assert(t@ == text::trim_end(start));
    assert(start == s@.skip(at));
    assert(start.take(end) == s@.subrange(at, at + end));
    assert forall|k: int| at + end <= k < s@.len() implies text::is_space(#[trigger] s@[k]) by {
        assert(start[k - at] == s@[k]);
    }
    if t@.len() > 0 {
        assert(t@[0] == start[0]);
    }
    at
}

proof fn lemma_trim_start(s: Seq<char>)
    ensures
        ({
            let t = text::trim_start(s);
            &&& t.len() <= s.len()
            &&& t == s.skip(s.len() - t.len())
            &&& t.len() > 0 ==> !text::is_space(t[0])
            &&& forall|k: int| 0 <= k < s.len() - t.len() ==> text::is_space(#[trigger] s[k])
        }),
    decreases s.len(),
{
    if s.len() > 0 && text::is_space(s[0]) {
        let rest = s.drop_first();
        lemma_trim_start(rest);
        let t = text::trim_start(s);
        assert(rest.skip(rest.len() - t.len()) == s.skip(s.len() - t.len()));
        assert forall|k: int| 0 <= k < s.len() - t.len() implies text::is_space(#[trigger] s[k]) by {
            if k > 0 {
                assert(rest[k - 1] == s[k]);
            }
        }
    } else {
        assert(s.skip(0) == s);
    }
}

proof fn lemma_trim_end(s: Seq<char>)
    ensures
        ({
            let t = text::trim_end(s);
            &&& t.len() <= s.len()
            &&& t == s.take(t.len() as int)
            &&& t.len() > 0 ==> !text::is_space(t.last())
            &&& t.len() > 0 ==> t[0] == s[0]
            &&& forall|k: int| t.len() <= k < s.len() ==> text::is_space(#[trigger] s[k])
        }),
    decreases s.len(),
{
    if s.len() > 0 && text::is_space(s.last()) {
        let rest = s.drop_last();
        lemma_trim_end(rest);
        let t = text::trim_end(s);
        assert(rest.take(t.len() as int) == s.take(t.len() as int));
        assert forall|k: int| t.len() <= k < s.len() implies text::is_space(#[trigger] s[k]) by {
            if k < s.len() - 1 {
                assert(rest[k] == s[k]);
            }
        }
    } else {
        assert(s.take(s.len() as int) == s);
    }
}

// ---------------------------------------------------------------------------------------------
// Numbers
// ---------------------------------------------------------------------------------------------

pub proof fn lemma_dec(n: nat)
    ensures
        text::is_number(text::dec(n)),
        text::digits_value(text::dec(n)) == n,
        n > 0 ==> text::dec(n)[0] != '0',
    decreases n,
{
    if n < 10 {
        let s = text::dec(n);
        assert(s.drop_last() == Seq::<char>::empty());
        assert(text::digits_value(s.drop_last()) == 0);
        assert(s.last() == text::digit(n as int));
    } else {
        let s = text::dec(n);
        let front = text::dec(n / 10);
        lemma_dec(n / 10);
        assert(s.drop_last() == front);
        assert(s[0] == front[0]);
        assert forall|i: int| 0 <= i < s.len() implies '0' <= #[trigger] s[i] <= '9' by {
            if i < front.len() {
                assert(s[i] == front[i]);
            }
        }
    }
}

/// A number that is printed is read again as the same number, and has no useless zero; a negative
/// one has its sign.
pub proof fn a_printed_number_is_read_again(
    n: u64,
    printed: String,
    again: &str,
    max: u64,
    read: Option<u64>,
)
    requires
        call_ensures(text::decimal, (n,), printed),
        again@ == printed@,
        call_ensures(text::parse_up_to, (again, max), read),
    ensures
        n <= max ==> read == Some(n),
        n > max ==> read is None,
        n > 0 ==> printed@[0] != '0',
        forall|i: int| 0 <= i < printed@.len() ==> '0' <= #[trigger] printed@[i] <= '9',
{
    lemma_dec(n as nat);
    assert(printed@[0] != '+') by {
        assert('0' <= printed@[0] <= '9');
    }
}

/// The sign of a printed number is that of the number.
pub proof fn a_printed_number_has_its_sign(n: i64, printed: String)
    requires
        call_ensures(text::decimal_signed, (n,), printed),
    ensures
        n >= 0 ==> text::is_number(printed@) && text::digits_value(printed@) == n,
        n < 0 ==> printed@.len() > 0 && printed@[0] == '-' && text::is_number(printed@.skip(1))
            && text::digits_value(printed@.skip(1)) == -n,
{
    if n >= 0 {
        lemma_dec(n as nat);
    } else {
        lemma_dec((-n) as nat);
        assert((seq!['-'] + text::dec((-n) as nat)).skip(1) == text::dec((-n) as nat));
    }
}

/// A text that is widened keeps its characters on the side that it is not widened on, and has the
/// width that was asked for.
pub proof fn a_widened_text_keeps_its_characters(s: &str, c: char, width: usize, left: String, right: String)
    requires
        call_ensures(text::pad_left, (s, c, width), left),
        call_ensures(text::pad_right, (s, c, width), right),
    ensures
        left@.skip(left@.len() - s@.len()) == s@,
        right@.take(s@.len() as int) == s@,
        s@.len() <= width ==> left@.len() == width && right@.len() == width,
        s@.len() > width ==> left@ == s@ && right@ == s@,
        forall|i: int| 0 <= i < left@.len() - s@.len() ==> #[trigger] left@[i] == c,
        forall|i: int| s@.len() <= i < right@.len() ==> #[trigger] right@[i] == c,
{
    assert(left@.skip(left@.len() - s@.len()) =~= s@);
    assert(right@.take(s@.len() as int) =~= s@);
}

// ---------------------------------------------------------------------------------------------
// Recipients
// ---------------------------------------------------------------------------------------------

/// The recipients of a field that holds them between commas are those it holds, whatever white
/// space stands around them.
pub proof fn a_field_names_those_it_holds(field: &str, parts: Seq<Seq<char>>, found: Vec<String>)
    requires
        call_ensures(recipients::recipients, (field,), found),
        forall|i: int| 0 <= i < parts.len() ==> recipients::is_recipient(#[trigger] parts[i]),
        field@ == text::joined(parts, ", "@),
    ensures
        text::texts(found@) == parts,
{
    recipients::joined_recipients_come_back(parts);
}

/// What is being typed at the end of a field is what stands behind its last separator, without the
/// white space around it, and a proposal takes its place and no other.
pub proof fn a_proposal_takes_the_place_of_what_is_typed(
    before: Seq<char>,
    sep: char,
    typed: Seq<char>,
    field: &str,
    fragment: String,
    chosen: &str,
    after: String,
)
    requires
        sep == ',' || sep == ';',
        !typed.contains(',') && !typed.contains(';'),
        field@ == before.push(sep) + typed,
        call_ensures(recipients::last_fragment, (field,), fragment),
        call_ensures(recipients::replace_last, (field, chosen), after),
    ensures
        fragment@ == text::trimmed(typed),
        recipients::recipients_of(after@) == recipients::recipients_of(before)
            + recipients::recipients_of(chosen@),
{
    lemma_last_separator(before, sep, typed);
    assert(field@.take(before.len() as int) == before);
    assert(field@.skip(before.len() + 1int) == typed);
    recipients::choosing_keeps_the_recipients_already_typed(field@, chosen@);
}

proof fn lemma_last_separator(before: Seq<char>, sep: char, typed: Seq<char>)
    requires
        sep == ',' || sep == ';',
        !typed.contains(',') && !typed.contains(';'),
    ensures
        recipients::last_separator(before.push(sep) + typed) == before.len(),
        recipients::pieces(before.push(sep) + typed).last() == typed,
    decreases typed.len(),
{
    let whole = before.push(sep) + typed;
    if typed.len() == 0 {
        assert(whole == before.push(sep));
        assert(whole.last() == sep);
        assert(recipients::pieces(whole).last() == Seq::<char>::empty());
    } else {
        let rest = typed.drop_last();
        assert forall|k: int| 0 <= k < rest.len() implies rest[k] != ',' && rest[k] != ';' by {
            assert(typed[k] == rest[k]);
            assert(typed.contains(rest[k]));
        }
        lemma_last_separator(before, sep, rest);
        assert(whole.drop_last() == before.push(sep) + rest);
        assert(whole.last() == typed.last());
        assert(typed.contains(typed.last())) by {
            assert(typed[typed.len() - 1] == typed.last());
        }
        assert(rest.push(typed.last()) == typed);
    }
}

// ---------------------------------------------------------------------------------------------
// Dates
// ---------------------------------------------------------------------------------------------

/// The date that is shown in a list starts with the day of the instant and goes on with its month,
/// each on two digits; the year is there where it is not the present one.
pub proof fn a_short_date_is_the_day_then_the_month(unix: i64, year: i64, shown: String)
    requires
        call_ensures(dates::short_date, (unix, year), shown),
        unix > 0,
    ensures
        ({
            let date = dates::civil_of(unix as int);
            let day = text::padded_left(text::dec(date.2 as nat), '0', 2);
            let month = text::padded_left(text::dec(date.1 as nat), '0', 2);
            &&& text::starts(shown@, day + seq!['/'] + month)
            &&& date.0 == year <==> shown@ == day + seq!['/'] + month
        }),
{
    let date = dates::civil_of(unix as int);
    let day = dates::two_digits(date.2 as int);
    let month = dates::two_digits(date.1 as int);
    reveal_strlit("/");
    assert("/"@ == seq!['/']);
    let both = day + seq!['/'] + month;
    if date.0 == year {
        assert(shown@.take(both.len() as int) == both);
    } else {
        let rest = "/"@ + dates::two_digits(date.0 as int % 100);
        assert(shown@ == both + rest);
        assert(shown@.take(both.len() as int) == both);
        assert(shown@.len() > both.len());
    }
}

// ---------------------------------------------------------------------------------------------
// Comparing, measuring and repeating
// ---------------------------------------------------------------------------------------------

/// Two texts are the same where they have the same characters; two optional texts also where there
/// is neither.
pub proof fn the_same_texts_have_the_same_characters(
    a: &str,
    b: &str,
    same: bool,
    c: &Option<String>,
    d: &Option<String>,
    both: bool,
)
    requires
        call_ensures(text::same, (a, b), same),
        call_ensures(text::same_opt, (c, d), both),
    ensures
        same <==> a@.len() == b@.len() && forall|i: int|
            0 <= i < a@.len() ==> #[trigger] a@[i] == b@[i],
        c is None && d is None ==> both,
        c is Some != d is Some ==> !both,
        c matches Some(x) ==> (d matches Some(y) ==> (both <==> x@ == y@)),
{
    if a@.len() == b@.len() && forall|i: int| 0 <= i < a@.len() ==> #[trigger] a@[i] == b@[i] {
        assert(a@ =~= b@);
    }
}

/// What is left behind a prefix makes the text again, and there is something left where the text
/// starts with it.
pub proof fn a_prefix_and_what_follows_make_the_text(
    s: &str,
    prefix: &str,
    begins: bool,
    rest: Option<String>,
)
    requires
        call_ensures(text::starts_with, (s, prefix), begins),
        call_ensures(text::strip_prefix, (s, prefix), rest),
    ensures
        begins <==> rest is Some,
        rest matches Some(r) ==> s@ == prefix@ + r@,
        rest is None ==> !exists|r: Seq<char>| s@ == #[trigger] (prefix@ + r),
{
    match rest {
        Some(r) => {
            assert(s@ == s@.take(prefix@.len() as int) + s@.skip(prefix@.len() as int));
        },
        None => {
            assert forall|r: Seq<char>| s@ != #[trigger] (prefix@ + r) by {
                if s@ == prefix@ + r {
                    assert(s@.take(prefix@.len() as int) == prefix@);
                }
            }
        },
    }
}

/// Whether two characters are the same letter of the Latin alphabet, large or small, or the same
/// character.
pub open spec fn same_letter(a: char, b: char) -> bool {
    ||| a == b
    ||| 'A' <= a <= 'Z' && b as u32 == a as u32 + 32
    ||| 'A' <= b <= 'Z' && a as u32 == b as u32 + 32
}

/// Two texts have the same letters where their characters are the same letters, one by one.
pub proof fn the_same_letters_are_large_or_small(a: &str, b: &str, same: bool)
    requires
        call_ensures(text::same_letters, (a, b), same),
    ensures
        same <==> a@.len() == b@.len() && forall|i: int|
            0 <= i < a@.len() ==> same_letter(#[trigger] a@[i], b@[i]),
{
    if a@.len() == b@.len() && forall|i: int|
        0 <= i < a@.len() ==> same_letter(#[trigger] a@[i], b@[i]) {
        assert forall|i: int| 0 <= i < a@.len() implies text::small(#[trigger] a@[i])
            == text::small(b@[i]) by {
            assert(same_letter(a@[i], b@[i]));
        }
    }
    if same {
        assert forall|i: int| 0 <= i < a@.len() implies same_letter(#[trigger] a@[i], b@[i]) by {
            assert(text::small(a@[i]) == text::small(b@[i]));
        }
    }
}

/// A character that is repeated is there as many times, and a text that is repeated once more has one
/// copy more at its end.
pub proof fn what_is_repeated_is_there_as_many_times(
    c: char,
    n: usize,
    row: String,
    s: &str,
    some: String,
    more: String,
)
    requires
        call_ensures(text::repeat, (c, n), row),
        n < usize::MAX,
        call_ensures(text::repeat_text, (s, n), some),
        call_ensures(text::repeat_text, (s, (n + 1) as usize), more),
    ensures
        row@.len() == n,
        forall|i: int| 0 <= i < n ==> row@[i] == c,
        more@ == some@ + s@,
        n == 0 ==> some@.len() == 0,
{
}

/// The length of a text in bytes is that of its encoding, and the characters that fit in a number of
/// bytes are as many as do.
pub proof fn a_text_is_measured_in_its_encoding(s: &str, bytes: usize, v: &Vec<char>, max: usize, n: usize)
    requires
        call_ensures(utf8::len_of, (s,), bytes),
        call_ensures(utf8::fit, (v, max), n),
    ensures
        bytes == vstd::utf8::encode_utf8(s@).len(),
        n <= v@.len(),
        vstd::utf8::encode_utf8(v@.take(n as int)).len() <= max,
        n < v@.len() ==> vstd::utf8::encode_utf8(v@.take(n + 1)).len() > max,
{
    utf8::byte_len_is_that_of_the_encoding(s@);
    utf8::lemma_fitting_fits(v@, max as nat);
    utf8::byte_len_is_that_of_the_encoding(v@.take(n as int));
    if n < v@.len() {
        utf8::byte_len_is_that_of_the_encoding(v@.take(n + 1));
    }
}

/// A copy is the same, in the same order.
pub proof fn a_copy_is_the_same(
    words: &Vec<String>,
    copied: Vec<String>,
    one: &Option<String>,
    other: Option<String>,
    files: &Vec<Attached>,
    same: Vec<Attached>,
    rows: &Vec<Row>,
    n: usize,
    first: Vec<Row>,
)
    requires
        call_ensures(text::copy_list, (words,), copied),
        call_ensures(text::copy_opt, (one,), other),
        call_ensures(dto::copy_attached, (files,), same),
        n <= rows@.len(),
        call_ensures(dto::copy_rows, (rows, n), first),
    ensures
        copied@ == words@,
        other == *one,
        same@ == files@,
        first@.len() == n,
        forall|i: int| 0 <= i < n ==> #[trigger] first@[i] == rows@[i],
{
}

} // verus!
