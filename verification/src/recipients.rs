//! Fields of recipients: what a person types between two separators.
//!
//! A field holds addresses separated by commas or semicolons. The module says which addresses a
//! field names, which fragment is being typed at its end, and what choosing a proposal makes of
//! it.
use crate::text;
use vstd::prelude::*;
use vstd::string::*;

verus! {

/// The characters that part two recipients.
pub open spec fn is_separator(c: char) -> bool {
    c == ',' || c == ';'
}

/// A field cut at its separators: one more piece than there are separators.
pub open spec fn pieces(s: Seq<char>) -> Seq<Seq<char>>
    decreases s.len(),
{
    if s.len() == 0 {
        seq![Seq::empty()]
    } else {
        let before = pieces(s.drop_last());
        if is_separator(s.last()) {
            before.push(Seq::empty())
        } else {
            before.drop_last().push(before.last().push(s.last()))
        }
    }
}

/// The pieces that hold something, without the white space around them.
pub open spec fn meaningful(parts: Seq<Seq<char>>) -> Seq<Seq<char>>
    decreases parts.len(),
{
    if parts.len() == 0 {
        Seq::empty()
    } else {
        let before = meaningful(parts.drop_last());
        let last = text::trimmed(parts.last());
        if last.len() == 0 {
            before
        } else {
            before.push(last)
        }
    }
}

/// The recipients that a field names.
pub open spec fn recipients_of(field: Seq<char>) -> Seq<Seq<char>> {
    meaningful(pieces(field))
}

/// The fragment that is being typed at the end of a field.
pub open spec fn fragment_of(field: Seq<char>) -> Seq<char> {
    text::trimmed(pieces(field).last())
}

/// Where the last separator of a field is; `-1` where it has none.
pub open spec fn last_separator(s: Seq<char>) -> int
    decreases s.len(),
{
    if s.len() == 0 {
        -1
    } else if is_separator(s.last()) {
        s.len() - 1
    } else {
        last_separator(s.drop_last())
    }
}

/// A text without the separators and the white space at its end.
pub open spec fn stripped(s: Seq<char>) -> Seq<char>
    decreases s.len(),
{
    if s.len() > 0 && (is_separator(s.last()) || text::is_space(s.last())) {
        stripped(s.drop_last())
    } else {
        s
    }
}

/// What stands before the fragment being typed.
pub open spec fn before_fragment(field: Seq<char>) -> Seq<char> {
    if last_separator(field) < 0 {
        Seq::empty()
    } else {
        field.take(last_separator(field))
    }
}

/// A field in which a chosen address takes the place of the fragment being typed, ready for the
/// next one.
pub open spec fn replaced(field: Seq<char>, chosen: Seq<char>) -> Seq<char> {
    let kept = stripped(before_fragment(field));
    if kept.len() == 0 {
        chosen + ", "@
    } else {
        kept + ", "@ + chosen + ", "@
    }
}

// ---------------------------------------------------------------------------------------------
// Facts about fields
// ---------------------------------------------------------------------------------------------

proof fn lemma_pieces_not_empty(s: Seq<char>)
    ensures
        pieces(s).len() >= 1,
    decreases s.len(),
{
    if s.len() > 0 {
        lemma_pieces_not_empty(s.drop_last());
    }
}

/// An empty field names nobody.
proof fn lemma_empty_field()
    ensures
        recipients_of(Seq::empty()) == Seq::<Seq<char>>::empty(),
{
    let none = Seq::<char>::empty();
    assert(pieces(none) == seq![none]);
    assert(pieces(none).last() == none);
    assert(pieces(none).drop_last() == Seq::<Seq<char>>::empty());
    assert(text::trimmed(none) == none);
    assert(meaningful(Seq::<Seq<char>>::empty()) == Seq::<Seq<char>>::empty());
}

/// A separator parts a field in two.
proof fn lemma_pieces_around(a: Seq<char>, c: char, b: Seq<char>)
    requires
        is_separator(c),
    ensures
        pieces(a.push(c) + b) == pieces(a) + pieces(b),
    decreases b.len(),
{
    let whole = a.push(c) + b;
    if b.len() == 0 {
        assert(whole == a.push(c));
        assert(whole.drop_last() == a);
        assert(pieces(a) + pieces(b) == pieces(a).push(Seq::empty()));
    } else {
        lemma_pieces_around(a, c, b.drop_last());
        lemma_pieces_not_empty(b.drop_last());
        assert(whole.drop_last() == a.push(c) + b.drop_last());
        let left = pieces(a);
        let right = pieces(b.drop_last());
        assert((left + right).last() == right.last());
        assert((left + right).drop_last() == left + right.drop_last());
        if is_separator(b.last()) {
            assert((left + right).push(Seq::empty()) == left + right.push(Seq::empty()));
        } else {
            let grown = right.last().push(b.last());
            assert((left + right.drop_last()).push(grown) == left + right.drop_last().push(grown));
        }
    }
}

proof fn lemma_meaningful_of_sum(a: Seq<Seq<char>>, b: Seq<Seq<char>>)
    ensures
        meaningful(a + b) == meaningful(a) + meaningful(b),
    decreases b.len(),
{
    if b.len() == 0 {
        assert(a + b == a);
        assert(meaningful(a) + meaningful(b) == meaningful(a));
    } else {
        lemma_meaningful_of_sum(a, b.drop_last());
        assert((a + b).drop_last() == a + b.drop_last());
        assert((a + b).last() == b.last());
        let last = text::trimmed(b.last());
        assert((meaningful(a) + meaningful(b.drop_last())).push(last) == meaningful(a)
            + meaningful(b.drop_last()).push(last));
    }
}

/// A separator parts the recipients of a field in two.
proof fn lemma_recipients_around(a: Seq<char>, c: char, b: Seq<char>)
    requires
        is_separator(c),
    ensures
        recipients_of(a.push(c) + b) == recipients_of(a) + recipients_of(b),
{
    lemma_pieces_around(a, c, b);
    lemma_meaningful_of_sum(pieces(a), pieces(b));
}

proof fn lemma_trim_end_start(s: Seq<char>, c: char)
    requires
        text::is_space(c),
    ensures
        text::trim_start(s.push(c)) == if text::trim_start(s).len() == 0 {
            Seq::empty()
        } else {
            text::trim_start(s).push(c)
        },
    decreases s.len(),
{
    let t = s.push(c);
    if s.len() == 0 {
        assert(t.drop_first() == Seq::<char>::empty());
        assert(text::trim_start(t.drop_first()) == Seq::<char>::empty());
    } else if text::is_space(s[0]) {
        assert(t[0] == s[0]);
        assert(t.drop_first() == s.drop_first().push(c));
        lemma_trim_end_start(s.drop_first(), c);
    } else {
        assert(t[0] == s[0]);
    }
}

/// White space behind a text is trimmed away.
proof fn lemma_trim_trailing(s: Seq<char>, c: char)
    requires
        text::is_space(c),
    ensures
        text::trimmed(s.push(c)) == text::trimmed(s),
{
    lemma_trim_end_start(s, c);
    let body = text::trim_start(s);
    if body.len() > 0 {
        assert(body.push(c).drop_last() == body);
    }
}

/// White space before a text is trimmed away.
proof fn lemma_trim_leading(c: char, s: Seq<char>)
    requires
        text::is_space(c),
    ensures
        text::trimmed(seq![c] + s) == text::trimmed(s),
{
    assert((seq![c] + s).drop_first() == s);
}

/// A separator or white space behind a field names no recipient.
proof fn lemma_recipients_trailing(s: Seq<char>, c: char)
    requires
        is_separator(c) || text::is_space(c),
    ensures
        recipients_of(s.push(c)) == recipients_of(s),
{
    let t = s.push(c);
    assert(t.drop_last() == s);
    lemma_pieces_not_empty(s);
    let before = pieces(s);
    if is_separator(c) {
        assert(before.push(Seq::empty()).drop_last() == before);
        assert(text::trimmed(Seq::<char>::empty()) == Seq::<char>::empty());
    } else {
        lemma_trim_trailing(before.last(), c);
        let grown = before.drop_last().push(before.last().push(c));
        assert(grown.drop_last() == before.drop_last());
    }
}

proof fn lemma_recipients_stripped(s: Seq<char>)
    ensures
        recipients_of(stripped(s)) == recipients_of(s),
    decreases s.len(),
{
    if s.len() > 0 && (is_separator(s.last()) || text::is_space(s.last())) {
        lemma_recipients_stripped(s.drop_last());
        lemma_recipients_trailing(s.drop_last(), s.last());
        assert(s.drop_last().push(s.last()) == s);
    }
}

/// White space before a field changes none of its pieces but the first, by as much.
proof fn lemma_pieces_leading(c: char, s: Seq<char>)
    requires
        !is_separator(c),
    ensures
        pieces(seq![c] + s).len() == pieces(s).len(),
        pieces(s).len() >= 1,
        pieces(seq![c] + s)[0] == seq![c] + pieces(s)[0],
        forall|i: int| 1 <= i < pieces(s).len() ==> pieces(seq![c] + s)[i] == pieces(s)[i],
    decreases s.len(),
{
    let t = seq![c] + s;
    if s.len() == 0 {
        assert(t.drop_last() == Seq::<char>::empty());
        assert(t.last() == c);
        assert(pieces(t.drop_last()) == seq![Seq::<char>::empty()]);
        assert(Seq::<char>::empty().push(c) == seq![c] + Seq::<char>::empty());
    } else {
        lemma_pieces_leading(c, s.drop_last());
        assert(t.drop_last() == seq![c] + s.drop_last());
        assert(t.last() == s.last());
        let p = pieces(s.drop_last());
        assert((seq![c] + p[0]).push(s.last()) == seq![c] + p[0].push(s.last()));
    }
}

proof fn lemma_meaningful_same(a: Seq<Seq<char>>, b: Seq<Seq<char>>)
    requires
        a.len() == b.len(),
        forall|i: int| 0 <= i < a.len() ==> text::trimmed(a[i]) == text::trimmed(b[i]),
    ensures
        meaningful(a) == meaningful(b),
    decreases a.len(),
{
    if a.len() > 0 {
        lemma_meaningful_same(a.drop_last(), b.drop_last());
        assert(text::trimmed(a[a.len() - 1]) == text::trimmed(b[a.len() - 1]));
    }
}

proof fn lemma_recipients_leading(c: char, s: Seq<char>)
    requires
        text::is_space(c),
    ensures
        recipients_of(seq![c] + s) == recipients_of(s),
{
    lemma_pieces_leading(c, s);
    lemma_trim_leading(c, pieces(s)[0]);
    lemma_meaningful_same(pieces(seq![c] + s), pieces(s));
}

/// A field is what precedes its last separator, that separator, and a fragment without any.
proof fn lemma_last_separator(s: Seq<char>)
    ensures
        -1 <= last_separator(s) < s.len(),
        last_separator(s) >= 0 ==> is_separator(s[last_separator(s)]),
        last_separator(s) < 0 ==> pieces(s) == seq![s],
        last_separator(s) >= 0 ==> pieces(s) == pieces(s.take(last_separator(s))).push(
            s.skip(last_separator(s) + 1),
        ),
    decreases s.len(),
{
    if s.len() > 0 {
        let at = last_separator(s);
        let rest = s.drop_last();
        lemma_last_separator(rest);
        if is_separator(s.last()) {
            assert(s.take(at) == rest);
            assert(s.skip(at + 1) == Seq::<char>::empty());
        } else if at < 0 {
            assert(seq![rest].drop_last().push(rest.push(s.last())) == seq![s]) by {
                assert(rest.push(s.last()) == s);
            }
        } else {
            assert(rest.take(at) == s.take(at));
            assert(rest.skip(at + 1).push(s.last()) == s.skip(at + 1));
            let before = pieces(s.take(at));
            let last = rest.skip(at + 1);
            assert(before.push(last).drop_last().push(last.push(s.last())) == before.push(
                s.skip(at + 1),
            ));
        }
    } else {
        assert(seq![Seq::<char>::empty()] == seq![s]) by {
            assert(s == Seq::<char>::empty());
        }
    }
}

// ---------------------------------------------------------------------------------------------
// Laws
// ---------------------------------------------------------------------------------------------

/// The recipients of a field are those before the fragment being typed, and that fragment where
/// it holds something.
pub proof fn the_fragment_is_the_last_recipient(field: Seq<char>)
    ensures
        recipients_of(field) == if fragment_of(field).len() == 0 {
            recipients_of(before_fragment(field))
        } else {
            recipients_of(before_fragment(field)).push(fragment_of(field))
        },
{
    lemma_last_separator(field);
    let at = last_separator(field);
    if at < 0 {
        assert(seq![field].drop_last() == Seq::<Seq<char>>::empty());
        assert(meaningful(Seq::<Seq<char>>::empty()) == Seq::<Seq<char>>::empty());
        lemma_empty_field();
    } else {
        assert(pieces(field).drop_last() == pieces(field.take(at)));
    }
}

/// Choosing an address keeps the recipients that were already there, in their order, drops the
/// fragment that was being typed, and adds those that the address names.
pub proof fn choosing_keeps_the_recipients_already_typed(field: Seq<char>, chosen: Seq<char>)
    ensures
        recipients_of(replaced(field, chosen)) == recipients_of(before_fragment(field))
            + recipients_of(chosen),
{
    reveal_strlit(", ");
    let comma_space = ", "@;
    assert(comma_space == seq![',', ' ']);
    let tail = chosen + comma_space;
    // Behind the chosen address stand a separator and a space.
    assert(tail == chosen.push(',').push(' '));
    lemma_recipients_trailing(chosen, ',');
    lemma_recipients_trailing(chosen.push(','), ' ');
    assert(recipients_of(tail) == recipients_of(chosen));
    let before = before_fragment(field);
    let kept = stripped(before);
    lemma_recipients_stripped(before);
    if kept.len() == 0 {
        assert(kept == Seq::<char>::empty());
        lemma_empty_field();
        assert(Seq::<Seq<char>>::empty() + recipients_of(chosen) == recipients_of(chosen));
    } else {
        let whole = kept + comma_space + chosen + comma_space;
        assert(whole == kept.push(',') + (seq![' '] + tail));
        lemma_recipients_around(kept, ',', seq![' '] + tail);
        lemma_recipients_leading(' ', tail);
    }
}

/// After an address is chosen, nothing is left of the fragment that was being typed.
pub proof fn choosing_leaves_no_fragment(field: Seq<char>, chosen: Seq<char>)
    ensures
        fragment_of(replaced(field, chosen)).len() == 0,
{
    reveal_strlit(", ");
    let whole = replaced(field, chosen);
    let n = whole.len() as int;
    assert(whole[n - 1] == ' ');
    assert(whole[n - 2] == ',');
    let first = whole.drop_last();
    assert(first.last() == ',');
    lemma_pieces_not_empty(first.drop_last());
    assert(pieces(first).last() == Seq::<char>::empty());
    let last = Seq::<char>::empty().push(' ');
    assert(pieces(whole).last() == last);
    lemma_trim_trailing(Seq::empty(), ' ');
    assert(text::trimmed(Seq::<char>::empty()) == Seq::<char>::empty());
}

/// A field in which an address was chosen ends ready for the next one.
pub proof fn choosing_leaves_the_field_ready(field: Seq<char>, chosen: Seq<char>)
    ensures
        replaced(field, chosen).len() >= 2,
        replaced(field, chosen).skip(replaced(field, chosen).len() - 2) == ", "@,
{
    reveal_strlit(", ");
    let whole = replaced(field, chosen);
    assert(whole.skip(whole.len() - 2) =~= ", "@);
}

/// Two fields put together, with either separator between them, name the recipients of the first,
/// then those of the second.
pub proof fn a_separator_parts_the_recipients(a: Seq<char>, b: Seq<char>)
    ensures
        recipients_of(a + ","@ + b) == recipients_of(a) + recipients_of(b),
        recipients_of(a + ";"@ + b) == recipients_of(a) + recipients_of(b),
{
    reveal_strlit(",");
    reveal_strlit(";");
    assert(a + ","@ == a.push(','));
    assert(a + ";"@ == a.push(';'));
    lemma_recipients_around(a, ',', b);
    lemma_recipients_around(a, ';', b);
}

/// Whether a text can be a recipient of a field: it holds something, no separator, and no white
/// space around it.
pub open spec fn is_recipient(s: Seq<char>) -> bool {
    &&& s.len() > 0
    &&& text::trimmed(s) == s
    &&& forall|i: int| 0 <= i < s.len() ==> !is_separator(#[trigger] s[i])
}

proof fn lemma_lone_recipient(s: Seq<char>)
    requires
        is_recipient(s),
    ensures
        recipients_of(s) == seq![s],
{
    lemma_last_separator(s);
    assert(pieces(s) == seq![s]);
    assert(seq![s].drop_last() == Seq::<Seq<char>>::empty());
    assert(meaningful(Seq::<Seq<char>>::empty()) == Seq::<Seq<char>>::empty());
    assert(Seq::<Seq<char>>::empty().push(s) == seq![s]);
}

proof fn lemma_pieces_without_separators(s: Seq<char>)
    ensures
        pieces(s).len() >= 1,
        forall|i: int, k: int|
            0 <= i < pieces(s).len() && 0 <= k < pieces(s)[i].len() ==> !is_separator(
                #[trigger] pieces(s)[i][k],
            ),
    decreases s.len(),
{
    if s.len() > 0 {
        lemma_pieces_without_separators(s.drop_last());
        let before = pieces(s.drop_last());
        let now = pieces(s);
        assert forall|i: int, k: int| 0 <= i < now.len() && 0 <= k < now[i].len() implies
            !is_separator(#[trigger] now[i][k]) by {
            if i < before.len() - 1 || is_separator(s.last()) {
                if i < before.len() {
                    assert(now[i] == before[i]);
                    assert(!is_separator(before[i][k]));
                }
            } else {
                assert(now[i] == before.last().push(s.last()));
                if k < before.last().len() {
                    assert(!is_separator(before[before.len() - 1][k]));
                }
            }
        }
    }
}

/// What is left of the start of a text is an end of it, and starts with no white space.
proof fn lemma_trim_start(s: Seq<char>)
    ensures
        ({
            let t = text::trim_start(s);
            &&& t.len() <= s.len()
            &&& t == s.skip(s.len() - t.len())
            &&& t.len() > 0 ==> !text::is_space(t[0])
        }),
    decreases s.len(),
{
    if s.len() > 0 && text::is_space(s[0]) {
        lemma_trim_start(s.drop_first());
        let t = text::trim_start(s);
        assert(s.drop_first().skip(s.len() - 1 - t.len()) == s.skip(s.len() - t.len()));
    } else {
        assert(s.skip(0) == s);
    }
}

/// What is left of the end of a text is a beginning of it, and ends in no white space.
proof fn lemma_trim_end(s: Seq<char>)
    ensures
        ({
            let t = text::trim_end(s);
            &&& t.len() <= s.len()
            &&& t == s.take(t.len() as int)
            &&& t.len() > 0 ==> !text::is_space(t.last())
        }),
    decreases s.len(),
{
    if s.len() > 0 && text::is_space(s.last()) {
        lemma_trim_end(s.drop_last());
        let t = text::trim_end(s);
        assert(s.drop_last().take(t.len() as int) == s.take(t.len() as int));
    } else {
        assert(s.take(s.len() as int) == s);
    }
}

/// A piece without separators, trimmed, can be a recipient where it holds something.
proof fn lemma_trimmed_piece(s: Seq<char>)
    requires
        forall|k: int| 0 <= k < s.len() ==> !is_separator(#[trigger] s[k]),
    ensures
        text::trimmed(s).len() > 0 ==> is_recipient(text::trimmed(s)),
{
    let start = text::trim_start(s);
    let t = text::trimmed(s);
    lemma_trim_start(s);
    lemma_trim_end(start);
    if t.len() > 0 {
        assert(t[0] == start[0]);
        assert(text::trim_start(t) == t);
        assert(text::trim_end(t) == t);
        assert forall|k: int| 0 <= k < t.len() implies !is_separator(#[trigger] t[k]) by {
            assert(t[k] == start[k]);
            assert(start[k] == s[s.len() - start.len() + k]);
        }
    }
}

proof fn lemma_meaningful_are_recipients(parts: Seq<Seq<char>>)
    requires
        forall|i: int, k: int|
            0 <= i < parts.len() && 0 <= k < parts[i].len() ==> !is_separator(
                #[trigger] parts[i][k],
            ),
    ensures
        forall|i: int|
            0 <= i < meaningful(parts).len() ==> is_recipient(#[trigger] meaningful(parts)[i]),
    decreases parts.len(),
{
    if parts.len() > 0 {
        let front = parts.drop_last();
        assert forall|i: int, k: int| 0 <= i < front.len() && 0 <= k < front[i].len() implies
            !is_separator(#[trigger] front[i][k]) by {
            assert(!is_separator(parts[i][k]));
        }
        lemma_meaningful_are_recipients(front);
        let last = parts.last();
        assert forall|k: int| 0 <= k < last.len() implies !is_separator(#[trigger] last[k]) by {
            assert(!is_separator(parts[parts.len() - 1][k]));
        }
        lemma_trimmed_piece(last);
        assert forall|i: int| 0 <= i < meaningful(parts).len() implies is_recipient(
            #[trigger] meaningful(parts)[i],
        ) by {
            if i < meaningful(front).len() {
                assert(meaningful(parts)[i] == meaningful(front)[i]);
            }
        }
    }
}

/// Recipients that are joined with a comma and a space come back when the field is split.
pub proof fn joined_recipients_come_back(parts: Seq<Seq<char>>)
    requires
        forall|i: int| 0 <= i < parts.len() ==> is_recipient(#[trigger] parts[i]),
    ensures
        recipients_of(text::joined(parts, ", "@)) == parts,
    decreases parts.len(),
{
    if parts.len() == 0 {
        lemma_empty_field();
    } else {
        let last = parts.last();
        assert(is_recipient(parts[parts.len() - 1]));
        lemma_lone_recipient(last);
        if parts.len() == 1 {
            assert(parts == seq![last]);
        } else {
            let front = parts.drop_last();
            assert forall|i: int| 0 <= i < front.len() implies is_recipient(
                #[trigger] front[i],
            ) by {
                assert(front[i] == parts[i]);
            }
            joined_recipients_come_back(front);
            reveal_strlit(", ");
            let before = text::joined(front, ", "@);
            assert(before + ", "@ + last == before.push(',') + (seq![' '] + last));
            lemma_recipients_around(before, ',', seq![' '] + last);
            lemma_recipients_leading(' ', last);
            assert(front + seq![last] == parts);
        }
    }
}

/// The recipients of a field, joined with a comma and a space, are those of the field.
pub proof fn a_field_written_anew_names_the_same(field: Seq<char>)
    ensures
        recipients_of(text::joined(recipients_of(field), ", "@)) == recipients_of(field),
{
    lemma_pieces_without_separators(field);
    lemma_meaningful_are_recipients(pieces(field));
    joined_recipients_come_back(recipients_of(field));
}

// ---------------------------------------------------------------------------------------------
// The functions
// ---------------------------------------------------------------------------------------------

fn separator(c: char) -> (r: bool)
    ensures
        r == is_separator(c),
{
    c == ',' || c == ';'
}

/// A field cut at its separators.
fn cut(field: &str) -> (r: Vec<String>)
    ensures
        text::texts(r@) == pieces(field@),
        r.len() >= 1,
{
    let v = text::chars_of(field);
    let mut out: Vec<String> = Vec::new();
    let mut current = String::new();
    let mut i: usize = 0;
    assert(v@.take(0) == Seq::<char>::empty());
    while i < v.len()
        invariant
            i <= v.len(),
            v@ == field@,
            text::texts(out@).push(current@) == pieces(v@.take(i as int)),
        decreases v.len() - i,
    {
        assert(v@.take(i + 1).drop_last() == v@.take(i as int));
        let ghost old_out = out@;
        let ghost old_current = current@;
        if separator(v[i]) {
            out.push(current);
            current = String::new();
            assert(text::texts(out@) == text::texts(old_out).push(old_current));
        } else {
            current.push(v[i]);
            assert(text::texts(out@).push(old_current).drop_last() == text::texts(out@));
        }
        i = i + 1;
    }
    assert(v@.take(i as int) == v@);
    let ghost old_out = out@;
    out.push(current);
    assert(text::texts(out@) == text::texts(old_out).push(current@));
    out
}

/// The recipients that a field names: the pieces between commas and semicolons, trimmed, without
/// the empty ones.
pub fn recipients(field: &str) -> (r: Vec<String>)
    ensures
        text::texts(r@) == recipients_of(field@),
{
    let parts = cut(field);
    let ghost all = text::texts(parts@);
    let mut out: Vec<String> = Vec::new();
    let mut i: usize = 0;
    assert(all.take(0) == Seq::<Seq<char>>::empty());
    while i < parts.len()
        invariant
            i <= parts.len(),
            all == text::texts(parts@),
            text::texts(out@) == meaningful(all.take(i as int)),
        decreases parts.len() - i,
    {
        assert(all.take(i + 1).drop_last() == all.take(i as int));
        let piece = text::trim(parts[i].as_str());
        let ghost old_out = out@;
        if piece.as_str().unicode_len() > 0 {
            out.push(piece);
            assert(text::texts(out@) == text::texts(old_out).push(piece@));
        }
        i = i + 1;
    }
    assert(all.take(i as int) == all);
    out
}

/// The fragment that is being typed at the end of a field.
pub fn last_fragment(field: &str) -> (r: String)
    ensures
        r@ == fragment_of(field@),
{
    let parts = cut(field);
    let n: usize = parts.len();
    assert(text::texts(parts@).last() == parts@[n - 1]@);
    text::trim(parts[n - 1].as_str())
}

/// Puts a chosen address in the place of the fragment being typed, and prepares the next one.
pub fn replace_last(field: &str, chosen: &str) -> (r: String)
    ensures
        r@ == replaced(field@, chosen@),
{
    let v = text::chars_of(field);
    let mut at: usize = v.len();
    assert(v@.take(at as int) == v@);
    while at > 0 && !separator(v[at - 1])
        invariant
            at <= v.len(),
            v@ == field@,
            last_separator(v@.take(at as int)) == last_separator(v@),
        decreases at,
    {
        assert(v@.take(at as int).drop_last() == v@.take(at - 1));
        at = at - 1;
    }
    let mut end: usize = if at == 0 {
        0
    } else {
        at - 1
    };
    assert(v@.take(end as int) == before_fragment(field@)) by {
        if at == 0 {
            assert(v@.take(0) == Seq::<char>::empty());
        }
    }
    let ghost before = before_fragment(field@);
    while end > 0 && (separator(v[end - 1]) || text::space(v[end - 1]))
        invariant
            end <= v.len(),
            v@ == field@,
            stripped(v@.take(end as int)) == stripped(before),
        decreases end,
    {
        assert(v@.take(end as int).drop_last() == v@.take(end - 1));
        end = end - 1;
    }
    assert(v@.take(end as int) == v@.subrange(0, end as int));
    assert(v@.take(end as int) == stripped(before));
    let mut out = String::new();
    if end > 0 {
        out = text::text_of(&v, 0, end);
        out.append(", ");
        out.append(chosen);
    } else {
        out = chosen.to_owned();
    }
    out.append(", ");
    out
}

} // verus!
