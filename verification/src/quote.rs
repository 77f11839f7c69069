//! Quoting and forwarding: what the body of an answer starts from, and how a name is cut.
use crate::dates;
use crate::dto::Message;
use crate::text;
use crate::utf8;
use vstd::prelude::*;
use vstd::string::*;

verus! {

/// What a quotation may take at most, in bytes of UTF-8, marks included. The notice that it was cut
/// comes on top.
pub const QUOTE_MAX: usize = 32768;

// ---------------------------------------------------------------------------------------------
// Cutting at a number of characters
// ---------------------------------------------------------------------------------------------

/// The first characters of a text and an ellipsis, `max` characters in all, where it is longer.
pub open spec fn elided(s: Seq<char>, max: nat) -> Seq<char> {
    if s.len() <= max {
        s
    } else {
        s.take(if max == 0 {
            0
        } else {
            max - 1
        }).push('…')
    }
}

/// Cuts a text at `max` characters, between two characters.
pub fn elide(s: &str, max: usize) -> (r: String)
    ensures
        r@ == elided(s@, max as nat),
{
    let v = text::chars_of(s);
    if v.len() <= max {
        return s.to_owned();
    }
    let end: usize = if max == 0 {
        0
    } else {
        max - 1
    };
    let mut out = text::text_of(&v, 0, end);
    assert(v@.subrange(0, end as int) == v@.take(end as int));
    out.push('…');
    out
}

/// A text on exactly `width` characters, where `width` is not zero: padded where it is shorter,
/// cut with an ellipsis where it is longer.
pub open spec fn column(s: Seq<char>, width: nat) -> Seq<char> {
    if s.len() <= width {
        text::padded_right(s, ' ', width)
    } else {
        elided(s, width)
    }
}

/// Cuts a text at `width` characters, or widens it to as many.
pub fn truncate(s: &str, width: usize) -> (r: String)
    ensures
        r@ == column(s@, width as nat),
{
    if s.unicode_len() <= width {
        text::pad_right(s, ' ', width)
    } else {
        elide(s, width)
    }
}

/// A cut text is no longer than asked, and starts as the text does.
pub proof fn elision_keeps_to_its_bound(s: Seq<char>, max: nat)
    requires
        max >= 1,
    ensures
        elided(s, max).len() <= max,
        s.len() > max ==> elided(s, max).len() == max && elided(s, max).last() == '…',
        forall|i: int| 0 <= i < s.len() && i < max - 1 ==> elided(s, max)[i] == s[i],
{
}

/// Columns line up: a truncated or padded text has the width that was asked.
pub proof fn columns_line_up(s: Seq<char>, width: nat)
    requires
        width >= 1,
    ensures
        column(s, width).len() == width,
{
}

// ---------------------------------------------------------------------------------------------
// Cutting at a number of bytes
// ---------------------------------------------------------------------------------------------

/// What is carried over of a body: all of it, or as many whole characters as fit, and then it says
/// that the rest is missing.
pub open spec fn quotable(body: Seq<char>) -> Seq<char> {
    if utf8::byte_len(body) <= QUOTE_MAX {
        body
    } else {
        body.take(utf8::fitting(body, QUOTE_MAX as nat) as int) + "\n[…] (citation tronquée)"@
    }
}

/// The body to carry over, bounded; where it was cut, it says so.
pub fn quote_body(body: &str) -> (r: String)
    ensures
        r@ == quotable(body@),
{
    let v = text::chars_of(body);
    let end: usize = utf8::fit(&v, QUOTE_MAX);
    proof {
        assert(v@.take(v.len() as int) == v@);
        if end < v.len() {
            utf8::lemma_fitting_is_short(v@, QUOTE_MAX as nat);
        } else {
            utf8::lemma_fitting_fits(v@, QUOTE_MAX as nat);
        }
    }
    if end == v.len() {
        return body.to_owned();
    }
    let mut out = text::text_of(&v, 0, end);
    assert(v@.subrange(0, end as int) == v@.take(end as int));
    out.append("\n[…] (citation tronquée)");
    out
}

/// What is carried over of a body is bounded, whatever the body.
pub proof fn a_body_carried_over_is_bounded(body: Seq<char>)
    ensures
        utf8::byte_len(quotable(body)) <= QUOTE_MAX + utf8::byte_len("\n[…] (citation tronquée)"@),
{
    if utf8::byte_len(body) > QUOTE_MAX {
        utf8::lemma_fitting_fits(body, QUOTE_MAX as nat);
        utf8::lemma_byte_len_of_sum(
            body.take(utf8::fitting(body, QUOTE_MAX as nat) as int),
            "\n[…] (citation tronquée)"@,
        );
    }
}

// ---------------------------------------------------------------------------------------------
// Quoting
// ---------------------------------------------------------------------------------------------

/// Who a message comes from, as an attribution line names it: the name and the address where the
/// name adds something, the address alone otherwise.
pub open spec fn sender_text(from: Seq<char>, name: Option<Seq<char>>) -> Seq<char> {
    match name {
        Some(n) => if text::trimmed(n).len() > 0 && n != from {
            n + " <"@ + from + ">"@
        } else {
            from
        },
        None => from,
    }
}

/// Lines, each behind a quotation mark.
pub open spec fn cited(lines: Seq<Seq<char>>) -> Seq<char>
    decreases lines.len(),
{
    if lines.len() == 0 {
        Seq::empty()
    } else {
        cited(lines.drop_last()) + "> "@ + lines.last() + "\n"@
    }
}

/// What a quotation that was cut says at its end.
pub open spec fn cut_notice() -> Seq<char> {
    "[…] (citation tronquée)"@
}

/// The lines that a quotation keeps in `room` bytes, where each line takes two for its mark and one
/// for its end: all of them; or the first ones, what fits of the next one, and the notice.
pub open spec fn kept_lines(lines: Seq<Seq<char>>, room: nat) -> Seq<Seq<char>>
    decreases lines.len(),
{
    if lines.len() == 0 {
        Seq::empty()
    } else if utf8::byte_len(lines[0]) + 3 <= room {
        seq![lines[0]] + kept_lines(
            lines.skip(1),
            (room - 3 - utf8::byte_len(lines[0])) as nat,
        )
    } else if room > 3 {
        seq![
            lines[0].take(utf8::fitting(lines[0], (room - 3) as nat) as int),
            cut_notice(),
        ]
    } else {
        seq![cut_notice()]
    }
}

/// What an answer quotes of a body.
pub open spec fn quotation(body: Seq<char>) -> Seq<char> {
    cited(kept_lines(text::lines(body), QUOTE_MAX as nat))
}

/// What an answer says above a quotation.
pub open spec fn attribution(message: Message) -> Seq<char> {
    "\n\nLe "@ + dates::full_date_text(message.row.date as int) + ", "@ + sender_text(
        message.row.from@,
        text::opt_text(message.row.from_name),
    ) + " a écrit :\n"@
}

/// A message, as an answer quotes it.
pub open spec fn quoted_text(message: Message) -> Seq<char> {
    attribution(message) + quotation(message.body@)
}

/// A message, as a forward presents it.
pub open spec fn forwarded_text(message: Message) -> Seq<char> {
    let sender = sender_text(message.row.from@, text::opt_text(message.row.from_name));
    let head = "\n\n-------- Message transféré --------\n"@ + "De : "@ + sender + "\n"@ + "Date : "@
        + dates::full_date_text(message.row.date as int) + "\n"@ + "Sujet : "@
        + message.row.subject@ + "\n"@;
    let named = if message.to@.len() == 0 {
        head
    } else {
        head + "À : "@ + text::joined(text::texts(message.to@), ", "@) + "\n"@
    };
    named + "\n"@ + quotable(message.body@)
}

/// Who a message comes from, as an attribution line names it.
pub fn sender_label(message: &Message) -> (r: String)
    ensures
        r@ == sender_text(message.row.from@, text::opt_text(message.row.from_name)),
{
    match &message.row.from_name {
        Some(name) => {
            if text::trim(name.as_str()).as_str().unicode_len() > 0 && !text::same(
                name.as_str(),
                message.row.from.as_str(),
            ) {
                let mut out = name.clone();
                out.append(" <");
                out.append(message.row.from.as_str());
                out.append(">");
                out
            } else {
                message.row.from.clone()
            }
        },
        None => message.row.from.clone(),
    }
}

/// A line that has room is kept, and leaves as much less.
proof fn lemma_line_kept(lines: Seq<Seq<char>>, i: int, room: nat)
    requires
        0 <= i < lines.len(),
        utf8::byte_len(lines[i]) + 3 <= room,
    ensures
        kept_lines(lines.skip(i), room) == seq![lines[i]] + kept_lines(
            lines.skip(i + 1),
            (room - 3 - utf8::byte_len(lines[i])) as nat,
        ),
{
    assert(lines.skip(i)[0] == lines[i]);
    assert(lines.skip(i).skip(1) == lines.skip(i + 1));
}

/// The lines that a quotation keeps.
fn keep(lines: &Vec<String>) -> (r: Vec<String>)
    ensures
        text::texts(r@) == kept_lines(text::texts(lines@), QUOTE_MAX as nat),
{
    let ghost all = text::texts(lines@);
    let ghost kept = kept_lines(all, QUOTE_MAX as nat);
    let mut out: Vec<String> = Vec::new();
    let mut room: usize = QUOTE_MAX;
    let mut i: usize = 0;
    assert(all.skip(0) == all);
    assert(text::texts(out@) + kept == kept);
    while i < lines.len()
        invariant
            i <= lines.len(),
            room <= QUOTE_MAX,
            all == text::texts(lines@),
            kept == kept_lines(all, QUOTE_MAX as nat),
            kept == text::texts(out@) + kept_lines(all.skip(i as int), room as nat),
        decreases lines.len() - i,
    {
        let bytes: usize = utf8::len_of(lines[i].as_str());
        let ghost before = text::texts(out@);
        if room >= 3 && bytes <= room - 3 {
            proof {
                lemma_line_kept(all, i as int, room as nat);
            }
            out.push(lines[i].clone());
            assert(text::texts(out@) == before + seq![all[i as int]]);
            room = room - 3 - bytes;
            i = i + 1;
        } else {
            assert(all.skip(i as int)[0] == all[i as int]);
            if room > 3 {
                let v = text::chars_of(lines[i].as_str());
                let end: usize = utf8::fit(&v, room - 3);
                out.push(text::text_of(&v, 0, end));
                assert(v@.subrange(0, end as int) == v@.take(end as int));
            }
            out.push("[…] (citation tronquée)".to_owned());
            assert(text::texts(out@) == kept);
            return out;
        }
    }
    assert(all.skip(i as int) == Seq::<Seq<char>>::empty());
    assert(text::texts(out@) == kept);
    out
}

/// The message, quoted as an answer quotes it: an attribution line, then each line of the body
/// behind a quotation mark. The quotation is bounded; where it was cut, it says so.
pub fn quoted(message: &Message) -> (r: String)
    ensures
        r@ == quoted_text(*message),
{
    let mut out = "\n\nLe ".to_owned();
    out.append(dates::full_date(message.row.date).as_str());
    out.append(", ");
    out.append(sender_label(message).as_str());
    out.append(" a écrit :\n");
    let ghost head = out@;
    let lines = keep(&text::lines_of(message.body.as_str()));
    let ghost all = text::texts(lines@);
    let mut i: usize = 0;
    assert(all.take(0) == Seq::<Seq<char>>::empty());
    assert(head + cited(all.take(0)) == head);
    while i < lines.len()
        invariant
            i <= lines.len(),
            all == text::texts(lines@),
            out@ == head + cited(all.take(i as int)),
        decreases lines.len() - i,
    {
        assert(all.take(i + 1).drop_last() == all.take(i as int));
        out.append("> ");
        out.append(lines[i].as_str());
        out.append("\n");
        assert(out@ == head + cited(all.take(i + 1)));
        i = i + 1;
    }
    assert(all.take(i as int) == all);
    out
}

/// The message, presented as a forward presents it: a block of readable headers, then the body.
pub fn forwarded(message: &Message) -> (r: String)
    ensures
        r@ == forwarded_text(*message),
{
    let mut out = "\n\n-------- Message transféré --------\n".to_owned();
    out.append("De : ");
    out.append(sender_label(message).as_str());
    out.append("\n");
    out.append("Date : ");
    out.append(dates::full_date(message.row.date).as_str());
    out.append("\n");
    out.append("Sujet : ");
    out.append(message.row.subject.as_str());
    out.append("\n");
    if message.to.len() > 0 {
        out.append("À : ");
        out.append(text::join(&message.to, ", ").as_str());
        out.append("\n");
    }
    out.append("\n");
    out.append(quote_body(message.body.as_str()).as_str());
    out
}

// ---------------------------------------------------------------------------------------------
// Laws of quotations
// ---------------------------------------------------------------------------------------------

/// A piece between two separators holds none.
pub proof fn lemma_split_pieces(s: Seq<char>, sep: char)
    ensures
        text::split(s, sep).len() >= 1,
        forall|i: int| 0 <= i < text::split(s, sep).len() ==> !text::split(s, sep)[i].contains(sep),
    decreases s.len(),
{
    if s.len() > 0 {
        lemma_split_pieces(s.drop_last(), sep);
        let before = text::split(s.drop_last(), sep);
        let now = text::split(s, sep);
        assert forall|i: int| 0 <= i < now.len() implies !now[i].contains(sep) by {
            if s.last() == sep {
                if i < before.len() {
                    assert(now[i] == before[i]);
                }
            } else if i < before.len() - 1 {
                assert(now[i] == before[i]);
            } else {
                assert(now[i] == before.last().push(s.last()));
                assert(!before[before.len() - 1].contains(sep));
                assert forall|k: int| 0 <= k < now[i].len() implies now[i][k] != sep by {
                    if k < before.last().len() {
                        assert(before.last()[k] == now[i][k]);
                    }
                }
            }
        }
    }
}

/// A text without separators, between two separators, is one piece.
pub proof fn lemma_split_append(a: Seq<char>, line: Seq<char>, sep: char)
    requires
        !line.contains(sep),
    ensures
        text::split(a + line, sep) == text::split(a, sep).drop_last().push(
            text::split(a, sep).last() + line,
        ),
    decreases line.len(),
{
    let before = text::split(a, sep);
    lemma_split_pieces(a, sep);
    if line.len() == 0 {
        assert(a + line == a);
        assert(before.last() + line == before.last());
        assert(before.drop_last().push(before.last()) == before);
    } else {
        let rest = line.drop_last();
        assert forall|k: int| 0 <= k < rest.len() implies rest[k] != sep by {
            assert(line[k] == rest[k]);
        }
        lemma_split_append(a, rest, sep);
        assert((a + line).drop_last() == a + rest);
        assert((a + line).last() == line.last());
        assert(line[line.len() - 1] == line.last());
        let middle = text::split(a + rest, sep);
        assert(middle.drop_last() == before.drop_last());
        assert((before.last() + rest).push(line.last()) == before.last() + line);
    }
}

/// What was cited splits back into its lines, each behind its mark, and nothing after the last.
pub proof fn lemma_cited_splits(lines: Seq<Seq<char>>)
    requires
        forall|i: int| 0 <= i < lines.len() ==> !lines[i].contains('\n'),
    ensures
        text::split(cited(lines), '\n') == Seq::new(
            lines.len(),
            |i: int| "> "@ + lines[i],
        ).push(Seq::empty()),
    decreases lines.len(),
{
    reveal_strlit("> ");
    reveal_strlit("\n");
    if lines.len() == 0 {
        assert(text::split(cited(lines), '\n') == seq![Seq::<char>::empty()]);
        assert(Seq::new(lines.len(), |i: int| "> "@ + lines[i]).push(Seq::empty()) == seq![
            Seq::<char>::empty(),
        ]);
    } else {
        let front = lines.drop_last();
        assert forall|i: int| 0 <= i < front.len() implies !front[i].contains('\n') by {
            assert(lines[i] == front[i]);
        }
        lemma_cited_splits(front);
        let marked = "> "@ + lines.last();
        assert(!lines[lines.len() - 1].contains('\n'));
        assert forall|k: int| 0 <= k < marked.len() implies marked[k] != '\n' by {
            if k >= 2 {
                assert(marked[k] == lines.last()[k - 2]);
            }
        }
        lemma_split_append(cited(front), marked, '\n');
        assert(cited(front) + "> "@ + lines.last() == cited(front) + marked);
        let whole = cited(lines);
        assert(whole.drop_last() == cited(front) + marked);
        assert(whole.last() == '\n');
        let done = Seq::new(front.len(), |i: int| "> "@ + front[i]);
        let all = Seq::new(lines.len(), |i: int| "> "@ + lines[i]);
        assert(done.push(Seq::empty()).drop_last() == done);
        assert(Seq::<char>::empty() + marked == marked);
        assert(done.push(marked) == all);
    }
}

pub proof fn lemma_cited_of_sum(a: Seq<Seq<char>>, b: Seq<Seq<char>>)
    ensures
        cited(a + b) == cited(a) + cited(b),
    decreases b.len(),
{
    if b.len() == 0 {
        assert(a + b == a);
        assert(cited(a) + cited(b) == cited(a));
    } else {
        lemma_cited_of_sum(a, b.drop_last());
        assert((a + b).drop_last() == a + b.drop_last());
        assert((a + b).last() == b.last());
    }
}

/// A line takes three bytes more in a quotation.
pub proof fn lemma_cited_line(line: Seq<char>)
    ensures
        utf8::byte_len(cited(seq![line])) == utf8::byte_len(line) + 3,
{
    reveal_strlit("> ");
    reveal_strlit("\n");
    reveal_with_fuel(utf8::byte_len, 3);
    assert(seq![line].drop_last() == Seq::<Seq<char>>::empty());
    assert(cited(Seq::<Seq<char>>::empty()) == Seq::<char>::empty());
    assert(cited(seq![line]) == Seq::<char>::empty() + "> "@ + line + "\n"@);
    assert(cited(seq![line]) == "> "@ + line + "\n"@);
    utf8::lemma_byte_len_of_sum("> "@ + line, "\n"@);
    utf8::lemma_byte_len_of_sum("> "@, line);
}

/// What a quotation keeps: everything that has room; otherwise a beginning, the notice last, in no
/// more room than the notice takes beside.
proof fn lemma_kept_lines(lines: Seq<Seq<char>>, room: nat)
    ensures
        ({
            let kept = kept_lines(lines, room);
            let notice = utf8::byte_len(cut_notice()) + 3;
            if utf8::byte_len(cited(lines)) <= room {
                kept == lines
            } else {
                &&& kept.len() >= 1
                &&& kept.last() == cut_notice()
                &&& kept.len() <= lines.len() + 1
                &&& utf8::byte_len(cited(kept)) <= room + notice
                &&& forall|i: int|
                    0 <= i < kept.len() - 1 ==> text::starts(lines[i], #[trigger] kept[i])
            }
        }),
    decreases lines.len(),
{
    let kept = kept_lines(lines, room);
    if lines.len() == 0 {
        assert(kept == lines);
    } else {
        let first = lines[0];
        let rest = lines.skip(1);
        assert(seq![first] + rest == lines);
        lemma_cited_of_sum(seq![first], rest);
        lemma_cited_line(first);
        lemma_cited_line(cut_notice());
        utf8::lemma_byte_len_of_sum(cited(seq![first]), cited(rest));
        if utf8::byte_len(first) + 3 <= room {
            let left = (room - 3 - utf8::byte_len(first)) as nat;
            lemma_kept_lines(rest, left);
            let after = kept_lines(rest, left);
            lemma_cited_of_sum(seq![first], after);
            utf8::lemma_byte_len_of_sum(cited(seq![first]), cited(after));
            assert(first.take(first.len() as int) == first);
            if utf8::byte_len(cited(lines)) > room {
                assert forall|i: int| 0 <= i < kept.len() - 1 implies text::starts(
                    lines[i],
                    #[trigger] kept[i],
                ) by {
                    if i > 0 {
                        assert(kept[i] == after[i - 1]);
                        assert(lines[i] == rest[i - 1]);
                    }
                }
            }
        } else if room > 3 {
            let part = first.take(utf8::fitting(first, (room - 3) as nat) as int);
            utf8::lemma_fitting_fits(first, (room - 3) as nat);
            assert(kept == seq![part] + seq![cut_notice()]);
            lemma_cited_of_sum(seq![part], seq![cut_notice()]);
            lemma_cited_line(part);
            utf8::lemma_byte_len_of_sum(cited(seq![part]), cited(seq![cut_notice()]));
            assert(first.take(part.len() as int) == part);
        }
    }
}

/// A quotation is whole where it takes no more than its bound. Otherwise it is cut, and says so in
/// its last line; what stands before is the beginning of the body, line by line.
pub proof fn a_cut_quotation_says_so(body: Seq<char>)
    ensures
        ({
            let lines = text::lines(body);
            let kept = kept_lines(lines, QUOTE_MAX as nat);
            if utf8::byte_len(cited(lines)) <= QUOTE_MAX {
                quotation(body) == cited(lines)
            } else {
                &&& kept.len() >= 1
                &&& kept.last() == cut_notice()
                &&& kept.len() <= lines.len() + 1
                &&& forall|i: int|
                    0 <= i < kept.len() - 1 ==> text::starts(lines[i], #[trigger] kept[i])
            }
        }),
{
    lemma_kept_lines(text::lines(body), QUOTE_MAX as nat);
}

/// A text takes four bytes for each character at most.
proof fn lemma_byte_len_bound(s: Seq<char>)
    ensures
        utf8::byte_len(s) <= 4 * s.len(),
    decreases s.len(),
{
    if s.len() > 0 {
        lemma_byte_len_bound(s.drop_last());
    }
}

/// The number 1 and `k` zeros.
spec fn ten_to(k: nat) -> nat
    decreases k,
{
    if k == 0 {
        1
    } else {
        10 * ten_to((k - 1) as nat)
    }
}

proof fn lemma_digits(n: nat, k: nat)
    requires
        k >= 1,
        n < ten_to(k),
    ensures
        1 <= text::dec(n).len() <= k,
    decreases k,
{
    if n >= 10 {
        reveal_with_fuel(ten_to, 2);
        lemma_digits(n / 10, (k - 1) as nat);
    }
}

/// A machine number takes twenty digits at most.
proof fn lemma_few_digits(n: nat)
    requires
        n <= u64::MAX,
    ensures
        1 <= text::dec(n).len() <= 20,
{
    assert(n < ten_to(20)) by {
        reveal_with_fuel(ten_to, 21);
    }
    lemma_digits(n, 20);
}

/// The date of an attribution line takes few characters, whatever the instant.
proof fn lemma_full_date_is_short(unix: int)
    ensures
        dates::full_date_text(unix).len() <= 120,
{
    let date = dates::civil_of(unix);
    reveal_strlit("—");
    reveal_strlit(" ");
    reveal_strlit(" à ");
    reveal_strlit(":");
    reveal_strlit("janvier");
    reveal_strlit("février");
    reveal_strlit("mars");
    reveal_strlit("avril");
    reveal_strlit("mai");
    reveal_strlit("juin");
    reveal_strlit("juillet");
    reveal_strlit("août");
    reveal_strlit("septembre");
    reveal_strlit("octobre");
    reveal_strlit("novembre");
    reveal_strlit("décembre");
    lemma_few_digits(date.2 as nat);
    lemma_few_digits(date.3 as nat);
    lemma_few_digits(date.4 as nat);
    lemma_few_digits(
        if date.0 < 0 {
            (-date.0) as nat
        } else {
            date.0 as nat
        },
    );
}

/// A quotation is bounded, whatever the body: marks, attribution and notice included, it takes less
/// than four kibibytes above its bound, where the name and the address of the sender take less than
/// one.
pub proof fn a_quotation_is_bounded(message: Message)
    requires
        utf8::byte_len(message.row.from@) + (match message.row.from_name {
            Some(name) => utf8::byte_len(name@),
            None => 0,
        }) < 1024,
    ensures
        utf8::byte_len(quoted_text(message)) < QUOTE_MAX + 4096,
{
    let from = message.row.from@;
    let name = text::opt_text(message.row.from_name);
    let who = sender_text(from, name);
    let date = dates::full_date_text(message.row.date as int);
    let notice = cut_notice();
    reveal_strlit("\n\nLe ");
    reveal_strlit(", ");
    reveal_strlit(" a écrit :\n");
    reveal_strlit(" <");
    reveal_strlit(">");
    reveal_strlit("[…] (citation tronquée)");
    lemma_full_date_is_short(message.row.date as int);
    lemma_byte_len_bound(date);
    lemma_byte_len_bound("\n\nLe "@);
    lemma_byte_len_bound(", "@);
    lemma_byte_len_bound(" a écrit :\n"@);
    lemma_byte_len_bound(notice);
    if name is Some {
        let n = name->0;
        lemma_byte_len_bound(" <"@);
        lemma_byte_len_bound(">"@);
        utf8::lemma_byte_len_of_sum(n + " <"@ + from, ">"@);
        utf8::lemma_byte_len_of_sum(n + " <"@, from);
        utf8::lemma_byte_len_of_sum(n, " <"@);
    }
    assert(utf8::byte_len(who) < 1024 + 12);
    utf8::lemma_byte_len_of_sum("\n\nLe "@ + date + ", "@ + who, " a écrit :\n"@);
    utf8::lemma_byte_len_of_sum("\n\nLe "@ + date + ", "@, who);
    utf8::lemma_byte_len_of_sum("\n\nLe "@ + date, ", "@);
    utf8::lemma_byte_len_of_sum("\n\nLe "@, date);
    utf8::lemma_byte_len_of_sum(attribution(message), quotation(message.body@));
    lemma_kept_lines(text::lines(message.body@), QUOTE_MAX as nat);
}

/// Every line of a quotation starts with the quotation mark, empty lines and the notice included.
pub proof fn every_quoted_line_is_marked(body: Seq<char>)
    ensures
        ({
            let lines = text::lines(quotation(body));
            &&& lines.len() == kept_lines(text::lines(body), QUOTE_MAX as nat).len()
            &&& forall|i: int| 0 <= i < lines.len() ==> text::starts(#[trigger] lines[i], "> "@)
        }),
{
    reveal_strlit("> ");
    let written = text::lines(body);
    let pieces = text::split(body, '\n');
    lemma_split_pieces(body, '\n');
    assert forall|i: int| 0 <= i < written.len() implies !written[i].contains('\n') by {
        assert(!pieces[i].contains('\n'));
        if i < pieces.len() - 1 {
            assert(written[i] == text::without_cr(pieces[i]));
            assert forall|k: int| 0 <= k < written[i].len() implies written[i][k] != '\n' by {
                assert(pieces[i][k] == written[i][k]);
            }
        }
    }
    let lines = kept_lines(written, QUOTE_MAX as nat);
    lemma_kept_lines(written, QUOTE_MAX as nat);
    reveal_strlit("[…] (citation tronquée)");
    assert forall|i: int| 0 <= i < lines.len() implies !lines[i].contains('\n') by {
        if lines != written {
            if i < lines.len() - 1 {
                assert(text::starts(written[i], lines[i]));
                assert(!written[i].contains('\n'));
                assert forall|k: int| 0 <= k < lines[i].len() implies lines[i][k] != '\n' by {
                    assert(written[i].take(lines[i].len() as int)[k] == written[i][k]);
                }
            } else {
                assert(lines[i] == cut_notice());
            }
        }
    }
    lemma_cited_splits(lines);
    let marked = Seq::new(lines.len(), |i: int| "> "@ + lines[i]);
    let quoted = text::lines(cited(lines));
    assert(quoted.len() == lines.len());
    assert forall|i: int| 0 <= i < quoted.len() implies text::starts(
        #[trigger] quoted[i],
        "> "@,
    ) by {
        assert(quoted[i] == text::without_cr(marked[i]));
        assert(marked[i].take(2) =~= "> "@);
        assert(quoted[i].take(2) =~= "> "@);
    }
}

} // verus!
