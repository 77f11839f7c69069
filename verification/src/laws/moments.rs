//! Dates and labels: a day follows another, and what is cut short says so.
use crate::dates;
use crate::display;
use crate::dto::{Hello, Message, MessageSource, Row};
use crate::quote;
use crate::text;
use crate::utf8;
use vstd::prelude::*;
use vstd::string::*;

verus! {

proof fn lemma_within(a: Seq<char>, needle: Seq<char>, b: Seq<char>)
    ensures
        text::occurs(needle, a + needle + b),
{
    let all = a + needle + b;
    let at = a.len() as int;
    assert(all.subrange(at, at + needle.len()) == needle);
}

// ---------------------------------------------------------------------------------------------
// Dates
// ---------------------------------------------------------------------------------------------

/// Whether one date is the day behind another: the next of the month, the first of the next month,
/// or the first of the next year.
pub open spec fn follows(first: (i64, u32, u32, u32, u32), next: (i64, u32, u32, u32, u32)) -> bool {
    ||| next.0 == first.0 && next.1 == first.1 && next.2 == first.2 + 1
    ||| next.0 == first.0 && next.1 == first.1 + 1 && next.2 == 1
    ||| next.0 == first.0 + 1 && next.1 == 1 && next.2 == 1 && first.1 == 12 && first.2 == 31
}

/// How many days a month has, as everybody counts them.
pub open spec fn last_day(year: int, month: int) -> int {
    if month == 2 {
        if (year % 4 == 0 && year % 100 != 0) || year % 400 == 0 {
            29
        } else {
            28
        }
    } else if month == 4 || month == 6 || month == 9 || month == 11 {
        30
    } else {
        31
    }
}

/// A day later, at the same time of the day, it is the next day of the calendar: a month changes
/// behind its last day and not before, and the count starts on the first of January 1970.
pub proof fn a_day_later_is_the_next_day(
    unix: i64,
    later: i64,
    first: (i64, u32, u32, u32, u32),
    next: (i64, u32, u32, u32, u32),
    epoch: (i64, u32, u32, u32, u32),
)
    requires
        call_ensures(dates::civil, (unix,), first),
        call_ensures(dates::civil, (later,), next),
        call_ensures(dates::civil, (0,), epoch),
        later == unix + 86_400,
    ensures
        follows(first, next),
        next.1 != first.1 <==> first.2 == last_day(first.0 as int, first.1 as int),
        next.3 == first.3,
        next.4 == first.4,
        epoch == (1970i64, 1u32, 1u32, 0u32, 0u32),
{
    let n = lemma_next_date(first.0 as int, first.1 as int, first.2 as int);
    assert(later as int / 86_400 == unix as int / 86_400 + 1);
    assert(later as int % 86_400 == unix as int % 86_400);
    assert(later as int % 3600 == unix as int % 3600);
    dates::day_number_names_one_date(
        next.0 as int,
        next.1 as int,
        next.2 as int,
        n.0,
        n.1,
        n.2,
    );
    lemma_epoch(epoch);
}

#[verifier::spinoff_prover]
proof fn lemma_next_date(y: int, m: int, d: int) -> (next: (int, int, int))
    requires
        dates::valid_date(y, m, d),
    ensures
        dates::valid_date(next.0, next.1, next.2),
        dates::day_number(next.0, next.1, next.2) == dates::day_number(y, m, d) + 1,
        d < last_day(y, m) ==> next == (y, m, d + 1),
        d >= last_day(y, m) && m < 12 ==> next == (y, m + 1, 1int),
        d >= last_day(y, m) && m == 12 ==> next == (y + 1, 1int, 1int) && d == 31,
{
    assert(last_day(y, m) == dates::days_in_month(y, m)) by {
        if m == 2 {
            if y % 400 == 0 {
                assert(y % 4 == 0);
            }
        }
    }
    if d < dates::days_in_month(y, m) {
        (y, m, d + 1)
    } else if m < 12 {
        assert(dates::days_before_month(y, m + 1) == dates::days_before_month(y, m)
            + dates::days_in_month(y, m));
        (y, m + 1, 1int)
    } else {
        dates::lemma_year_length(y);
        dates::lemma_months(y);
        (y + 1, 1int, 1int)
    }
}

#[verifier::spinoff_prover]
proof fn lemma_epoch(epoch: (i64, u32, u32, u32, u32))
    requires
        dates::is_civil(0, epoch),
    ensures
        epoch == (1970i64, 1u32, 1u32, 0u32, 0u32),
{
    let zero = (1970i64, 1u32, 1u32, 0u32, 0u32);
    assert(dates::is_civil(0, zero));
    dates::an_instant_has_one_date(0, epoch, zero);
}

/// The time of the day is that of the instant: an hour has sixty minutes, a day twenty-four hours.
pub proof fn the_time_of_day_is_that_of_the_instant(unix: i64, date: (i64, u32, u32, u32, u32))
    requires
        call_ensures(dates::civil, (unix,), date),
    ensures
        date.3 < 24,
        date.4 < 60,
        (date.3 * 60 + date.4) * 60 <= unix as int % 86_400 < (date.3 * 60 + date.4) * 60 + 60,
        1 <= date.1 <= 12,
        1 <= date.2 <= last_day(date.0 as int, date.1 as int),
{
    let s = unix as int % 86_400;
    assert(unix as int % 3600 == s % 3600);
}

/// The months, from the first to the last.
pub open spec fn months() -> Seq<Seq<char>> {
    seq![
        "janvier"@,
        "février"@,
        "mars"@,
        "avril"@,
        "mai"@,
        "juin"@,
        "juillet"@,
        "août"@,
        "septembre"@,
        "octobre"@,
        "novembre"@,
        "décembre"@,
    ]
}

/// The long date and the readable one say the same day and the same minute: the day, the month, the
/// year, then the hour and the minute.
pub proof fn a_date_is_written_in_full(
    unix: i64,
    date: (i64, u32, u32, u32, u32),
    long: String,
    full: String,
)
    requires
        call_ensures(dates::civil, (unix,), date),
        call_ensures(dates::long_date, (unix,), long),
        call_ensures(dates::full_date, (unix,), full),
        unix > 0,
    ensures
        ({
            let two = |n: u32| text::padded_left(text::dec(n as nat), '0', 2);
            let year = text::dec(date.0 as nat);
            let time = two(date.3) + seq![':'] + two(date.4);
            &&& date.0 >= 1970
            &&& long@ == two(date.2) + seq!['/'] + two(date.1) + seq!['/'] + year + seq![' '] + time
            &&& text::starts(full@, text::dec(date.2 as nat) + seq![' '])
            &&& full@.skip(full@.len() - time.len()) == time
            &&& text::occurs(year, full@)
            &&& text::occurs(months()[date.1 - 1], full@)
        }),
{
    reveal_strlit("/");
    reveal_strlit(" ");
    reveal_strlit(":");
    assert("/"@ == seq!['/']);
    assert(" "@ == seq![' ']);
    assert(":"@ == seq![':']);
    dates::lemma_year_from_1970(unix as int, date);
    let time = dates::two_digits(date.3 as int) + ":"@ + dates::two_digits(date.4 as int);
    let year = text::dec(date.0 as nat);
    assert(text::signed_dec(date.0 as int) == year);
    let day = text::dec(date.2 as nat);
    let month = months()[date.1 - 1];
    assert(month == dates::month_name(date.1 as int));
    assert(full@ == (day + " "@ + month + " "@) + year + (" à "@ + time));
    lemma_within(day + " "@ + month + " "@, year, " à "@ + time);
    assert(full@ == (day + " "@) + month + (" "@ + year + " à "@ + time));
    lemma_within(day + " "@, month, " "@ + year + " à "@ + time);
    let lead = day + " "@;
    assert(full@.take(lead.len() as int) == lead);
    assert(full@.skip(full@.len() - time.len()) == time);
    assert(long@ == dates::two_digits(date.2 as int) + seq!['/'] + dates::two_digits(
        date.1 as int,
    ) + seq!['/'] + year + seq![' '] + time);
}

/// The clock is taken as it is, and one that stands before the count is taken for its start.
pub proof fn the_clock_is_taken_as_it_is(since: u64, now: i64, before: i64)
    requires
        call_ensures(dates::now, (Some(since),), now),
        call_ensures(dates::now, (None,), before),
    ensures
        since <= i64::MAX ==> now == since,
        since > i64::MAX ==> now == i64::MAX,
        before == 0,
{
}

// ---------------------------------------------------------------------------------------------
// What is cut
// ---------------------------------------------------------------------------------------------

/// A text that is not too long is shown whole; another is shown from its beginning, as long as there
/// is room, and says that it was cut.
pub proof fn a_cut_text_says_so(s: &str, max: usize, shown: String)
    requires
        call_ensures(quote::elide, (s, max), shown),
        max > 0,
    ensures
        s@.len() <= max ==> shown@ == s@,
        s@.len() > max ==> shown@.len() == max && shown@.last() == '…' && shown@.drop_last()
            == s@.take(max - 1),
{
}

/// A column has its width, starts as the text does, and is cut only where the text is too long.
pub proof fn a_column_has_its_width(s: &str, width: usize, shown: String)
    requires
        call_ensures(quote::truncate, (s, width), shown),
        width > 0,
    ensures
        shown@.len() == width,
        s@.len() <= width ==> shown@.take(s@.len() as int) == s@ && forall|i: int|
            s@.len() <= i < width ==> shown@[i] == ' ',
        s@.len() > width ==> shown@.last() == '…' && shown@.drop_last() == s@.take(width - 1),
{
}

/// A body is carried over whole where it is not too long; a longer one is carried over from its
/// beginning, as many characters as fit, and says that it was cut.
pub proof fn a_body_is_carried_over_from_its_beginning(body: &str, carried: String)
    requires
        call_ensures(quote::quote_body, (body,), carried),
    ensures
        utf8::byte_len(body@) <= 32768 ==> carried@ == body@,
        utf8::byte_len(body@) > 32768 ==> exists|k: int|
            0 <= k < body@.len() && text::starts(carried@, #[trigger] body@.take(k))
                && utf8::byte_len(body@.take(k)) <= 32768 && utf8::byte_len(body@.take(k + 1))
                > 32768 && carried@.skip(k) == "\n[…] (citation tronquée)"@,
{
    if utf8::byte_len(body@) > 32768 {
        utf8::lemma_fitting_fits(body@, 32768);
        let k = utf8::fitting(body@, 32768) as int;
        if k == body@.len() {
            assert(body@.take(k) == body@);
        }
        assert(carried@.take(k) == body@.take(k));
        assert(carried@.skip(k) == "\n[…] (citation tronquée)"@);
        assert(text::starts(carried@, body@.take(k)));
    }
}

/// A quotation names who wrote and when; a forward names besides what it was about and to whom.
pub proof fn a_quotation_names_who_wrote_and_when(
    message: &Message,
    quoted: String,
    forwarded: String,
    date: String,
    who: String,
)
    requires
        call_ensures(quote::quoted, (message,), quoted),
        call_ensures(quote::forwarded, (message,), forwarded),
        call_ensures(dates::full_date, (message.row.date,), date),
        call_ensures(quote::sender_label, (message,), who),
    ensures
        text::occurs(date@, quoted@),
        text::occurs(who@, quoted@),
        text::occurs(date@, forwarded@),
        text::occurs(who@, forwarded@),
        text::occurs(message.row.subject@, forwarded@),
        message.to@.len() > 0 ==> text::occurs(
            text::joined(text::texts(message.to@), ", "@),
            forwarded@,
        ),
        utf8::byte_len(message.body@) <= 32768 ==> forwarded@.len() >= message.body@.len()
            && forwarded@.skip(forwarded@.len() - message.body@.len()) == message.body@,
{
    let tail = " a écrit :\n"@ + quote::cited(
        quote::kept_lines(text::lines(message.body@), quote::QUOTE_MAX as nat),
    );
    assert(quoted@ == "\n\nLe "@ + date@ + (", "@ + who@ + tail));
    lemma_within("\n\nLe "@, date@, ", "@ + who@ + tail);
    assert(quoted@ == ("\n\nLe "@ + date@ + ", "@) + who@ + tail);
    lemma_within("\n\nLe "@ + date@ + ", "@, who@, tail);
    let head = forwarded@.len() - quote::quotable(message.body@).len();
    assert(forwarded@.skip(head) == quote::quotable(message.body@));
    lemma_forward(*message, forwarded@, date@, who@);
}

proof fn lemma_forward(message: Message, out: Seq<char>, date: Seq<char>, who: Seq<char>)
    requires
        out == quote::forwarded_text(message),
        date == dates::full_date_text(message.row.date as int),
        who == quote::sender_text(message.row.from@, text::opt_text(message.row.from_name)),
    ensures
        text::occurs(date, out),
        text::occurs(who, out),
        text::occurs(message.row.subject@, out),
        message.to@.len() > 0 ==> text::occurs(text::joined(text::texts(message.to@), ", "@), out),
{
    let subject = message.row.subject@;
    let to = text::joined(text::texts(message.to@), ", "@);
    let a = "\n\n-------- Message transféré --------\n"@ + "De : "@;
    let b = a + who + "\n"@ + "Date : "@;
    let c = b + date + "\n"@ + "Sujet : "@;
    let d = c + subject + "\n"@;
    let rest = "\n"@ + quote::quotable(message.body@);
    let e = if message.to@.len() == 0 {
        d
    } else {
        d + "À : "@ + to + "\n"@
    };
    assert(out == e + rest);
    let at = a.len() as int;
    assert(out.subrange(at, at + who.len()) == who);
    let bt = b.len() as int;
    assert(out.subrange(bt, bt + date.len()) == date);
    let ct = c.len() as int;
    assert(out.subrange(ct, ct + subject.len()) == subject);
    if message.to@.len() > 0 {
        let dt = (d + "À : "@).len() as int;
        assert(out.subrange(dt, dt + to.len()) == to);
    }
}

// ---------------------------------------------------------------------------------------------
// Labels
// ---------------------------------------------------------------------------------------------

/// Small labels say their number, and are not there where there is nothing to say.
pub proof fn a_label_says_its_number(
    count: usize,
    thread: Option<String>,
    drafts: String,
    hello: &Hello,
    messages: String,
    source: &MessageSource,
    size: &str,
    cut: Option<String>,
)
    requires
        call_ensures(display::thread_heading, (count,), thread),
        call_ensures(display::drafts_label, (count,), drafts),
        call_ensures(display::messages_label, (hello,), messages),
        call_ensures(display::source_cut, (source, size), cut),
    ensures
        thread is Some <==> count >= 2,
        thread matches Some(words) ==> text::occurs(text::dec(count as nat), words@),
        count > 0 ==> text::occurs(text::dec(count as nat), drafts@),
        count == 0 ==> drafts@ == "Brouillons"@,
        text::starts(messages@, text::dec(hello.messages as nat)),
        hello.search_available ==> messages@ == text::dec(hello.messages as nat) + " messages"@,
        !hello.search_available ==> text::occurs("sans index"@, messages@),
        cut is Some <==> source.body_truncated,
        cut matches Some(words) ==> text::occurs(size@, words@),
{
    let n = text::dec(count as nat);
    lemma_within("Fil — "@, n, " messages"@);
    lemma_within("Brouillons ("@, n, ")"@);
    let m = text::dec(hello.messages as nat);
    assert(messages@.take(m.len() as int) == m);
    reveal_strlit("");
    reveal_strlit(" — sans index");
    reveal_strlit("sans index");
    if hello.search_available {
        assert(messages@ == m + " messages"@);
    } else {
        assert(" — sans index"@ == " — sans index"@.take(3) + "sans index"@);
        let lead = m + " messages"@ + " — sans index"@.take(3);
        lemma_within(lead, "sans index"@, Seq::empty());
        assert(lead + "sans index"@ + Seq::<char>::empty() == messages@);
    }
    let lead = "corps tronqué — le message fait "@;
    lemma_within(lead, size@, Seq::empty());
    assert(lead + size@ + Seq::<char>::empty() == lead + size@);
}

/// A line of a thread shows the day and the subject of its message.
pub proof fn a_line_of_a_thread_shows_its_message(row: &Row, year: i64, day: String, label: String)
    requires
        call_ensures(display::thread_label, (row, year), label),
        call_ensures(dates::short_date, (row.date, year), day),
    ensures
        text::starts(label@, day@),
        row.subject@.len() <= 44 ==> text::occurs(row.subject@, label@),
{
    assert(label@.take(day@.len() as int) == day@);
    if row.subject@.len() <= 44 {
        let lead = day@ + "  "@;
        lemma_within(lead, row.subject@, Seq::empty());
        assert(lead + row.subject@ + Seq::<char>::empty() == label@);
    }
}

} // verus!
