//! Answers: who they go to, what they quote, and which thread they continue.
use crate::dates;
use crate::dto::{Account, Message};
use crate::protocol::Request;
use crate::quote;
use crate::recipients;
use crate::shell::Shell;
use crate::text;
use crate::utf8;
use crate::writing;
use crate::writing::{Answer, Threading};
use vstd::prelude::*;
use vstd::string::*;

verus! {

// ---------------------------------------------------------------------------------------------
// Addresses
// ---------------------------------------------------------------------------------------------

/// What stands before the first separator is the first piece.
proof fn lemma_first_piece(first: Seq<char>, sep: char, rest: Seq<char>)
    requires
        !first.contains(sep),
    ensures
        text::split(first.push(sep) + rest, sep).len() >= 2,
        text::split(first.push(sep) + rest, sep)[0] == first,
    decreases rest.len(),
{
    let whole = first.push(sep) + rest;
    if rest.len() == 0 {
        assert(whole == first.push(sep));
        assert(whole.drop_last() == first);
        quote::lemma_split_append(Seq::empty(), first, sep);
        assert(Seq::<char>::empty() + first == first);
        assert(text::split(Seq::<char>::empty(), sep) == seq![Seq::<char>::empty()]);
        assert(text::split(first, sep) == seq![first]);
    } else {
        lemma_first_piece(first, sep, rest.drop_last());
        assert(whole.drop_last() == first.push(sep) + rest.drop_last());
    }
}

/// The address of an entry is what stands between its angle brackets, behind any name; without
/// them it is the entry. The white space around it is no part of it.
pub proof fn an_address_is_what_the_brackets_hold(
    name: Seq<char>,
    inside: Seq<char>,
    rest: Seq<char>,
    bare: Seq<char>,
)
    requires
        !inside.contains('<'),
        !inside.contains('>'),
        !rest.contains('<'),
        !bare.contains('<'),
    ensures
        writing::address_of(name.push('<') + inside.push('>') + rest) == text::trimmed(inside),
        writing::address_of(bare) == text::trimmed(bare),
{
    let line = inside.push('>') + rest;
    let entry = name.push('<') + inside.push('>') + rest;
    assert(entry == name.push('<') + line);
    assert forall|k: int| 0 <= k < line.len() implies line[k] != '<' by {
        if k < inside.len() {
            assert(line[k] == inside[k]);
        } else if k > inside.len() {
            assert(line[k] == rest[k - inside.len() - 1]);
        }
    }
    quote::lemma_split_append(name.push('<'), line, '<');
    quote::lemma_split_pieces(name, '<');
    assert(name.push('<').drop_last() == name);
    assert(text::split(name.push('<'), '<') == text::split(name, '<').push(Seq::empty()));
    assert(Seq::<char>::empty() + line == line);
    assert(text::split(entry, '<').last() == line);
    lemma_first_piece(inside, '>', rest);
    quote::lemma_split_append(Seq::empty(), bare, '<');
    assert(text::split(Seq::<char>::empty(), '<') == seq![Seq::<char>::empty()]);
    assert(Seq::<char>::empty() + bare == bare);
    assert(text::split(bare, '<').len() == 1);
}

/// Two entries are of one address exactly where their addresses are the same in lower case.
pub proof fn the_case_of_an_address_tells_nobody_apart(a: Seq<char>, b: Seq<char>)
    ensures
        writing::address_key(a) == writing::address_key(b) <==> text::lowercase(
            writing::address_of(a),
        ) == text::lowercase(writing::address_of(b)),
{
}

// ---------------------------------------------------------------------------------------------
// Who an answer goes to
// ---------------------------------------------------------------------------------------------

/// Whether an entry names somebody else than the sender of a message and the holders of the
/// accounts.
pub open spec fn is_somebody_else(entry: Seq<char>, accounts: Seq<Account>, from: Seq<char>) -> bool {
    &&& writing::address_key(entry) != writing::address_key(from)
    &&& forall|k: int|
        0 <= k < accounts.len() ==> ((#[trigger] accounts[k]).address matches Some(own)
            ==> writing::address_key(own@) != writing::address_key(entry))
}

/// Everybody else who was written to, all of them and in order.
pub open spec fn everybody_else(to: Seq<Seq<char>>, accounts: Seq<Account>, from: Seq<char>) -> Seq<
    Seq<char>,
> {
    to.filter(|entry: Seq<char>| is_somebody_else(entry, accounts, from))
}

proof fn lemma_everybody_else(to: Seq<String>, accounts: Seq<Account>, from: Seq<char>)
    ensures
        text::texts(
            writing::other_recipients(
                to,
                writing::own_addresses(accounts),
                writing::address_key(from),
            ),
        ) == everybody_else(text::texts(to), accounts, from),
    decreases to.len(),
{
    reveal(Seq::filter);
    let mine = writing::own_addresses(accounts);
    let key = writing::address_key(from);
    if to.len() == 0 {
        assert(text::texts(to) == Seq::<Seq<char>>::empty());
        assert(text::texts(writing::other_recipients(to, mine, key)) == Seq::<Seq<char>>::empty());
    } else {
        let short = to.drop_last();
        let last = to.last();
        lemma_everybody_else(short, accounts, from);
        assert(text::texts(to).drop_last() == text::texts(short));
        assert(text::texts(to).last() == last@);
        let address = writing::address_key(last@);
        writing::lemma_own_addresses(accounts, address);
        assert(writing::is_other(address, mine, key) == is_somebody_else(last@, accounts, from)) by {
            if mine.contains(address) {
                let k = choose|k: int|
                    0 <= k < accounts.len() && writing::is_at(#[trigger] accounts[k], address);
                assert(accounts[k].address is Some);
            } else {
                assert forall|k: int| 0 <= k < accounts.len() implies ((
                #[trigger] accounts[k]).address matches Some(own) ==> writing::address_key(own@)
                    != address) by {
                    assert(!writing::is_at(accounts[k], address));
                }
            }
        }
        let before = writing::other_recipients(short, mine, key);
        let now = writing::other_recipients(to, mine, key);
        if writing::is_other(address, mine, key) {
            assert(now == before.push(last));
            assert(text::texts(now) == text::texts(before).push(last@));
        } else {
            assert(now == before);
        }
    }
}

proof fn lemma_kept_by_filter(parts: Seq<Seq<char>>, accounts: Seq<Account>, from: Seq<char>)
    requires
        forall|i: int| 0 <= i < parts.len() ==> recipients::is_recipient(#[trigger] parts[i]),
    ensures
        forall|i: int|
            0 <= i < everybody_else(parts, accounts, from).len() ==> recipients::is_recipient(
                #[trigger] everybody_else(parts, accounts, from)[i],
            ),
    decreases parts.len(),
{
    reveal(Seq::filter);
    if parts.len() > 0 {
        let short = parts.drop_last();
        assert forall|i: int| 0 <= i < short.len() implies recipients::is_recipient(
            #[trigger] short[i],
        ) by {
            assert(short[i] == parts[i]);
        }
        lemma_kept_by_filter(short, accounts, from);
        let before = everybody_else(short, accounts, from);
        let now = everybody_else(parts, accounts, from);
        assert(recipients::is_recipient(parts[parts.len() - 1]));
        assert forall|i: int| 0 <= i < now.len() implies recipients::is_recipient(
            #[trigger] now[i],
        ) by {
            if i < before.len() {
                assert(now[i] == before[i]);
            }
        }
    }
}

/// Whether an account is the first that can send.
pub open spec fn first_able(accounts: Seq<Account>, k: int) -> bool {
    &&& 0 <= k < accounts.len()
    &&& accounts[k].can_send
    &&& accounts[k].enabled
    &&& forall|j: int|
        0 <= j < k ==> !((#[trigger] accounts[j]).can_send && accounts[j].enabled)
}

proof fn lemma_sender(accounts: Seq<Account>, k: int)
    requires
        first_able(accounts, k),
    ensures
        writing::sender(accounts) == Some(accounts[k].id),
{
    assert(writing::sends(accounts[k]));
    assert(writing::is_sender(accounts, k));
    let i = choose|i: int| writing::is_sender(accounts, i);
    assert(writing::is_sender(accounts, i));
    if i < k {
        assert(!(accounts[i].can_send && accounts[i].enabled));
    } else if k < i {
        assert(!writing::sends(accounts[k]));
    }
}

/// A reply to everybody goes to the sender, with everybody else who was written to in copy: all of
/// them, in order, and nobody who was not. A reply to the sender has nobody in copy. Neither has
/// anybody in blind copy.
pub proof fn a_reply_to_everybody_names_everybody_else(
    pre: Shell,
    k: int,
    message: Message,
    threading: Threading,
    subject: String,
    one: Shell,
    all: Shell,
)
    requires
        pre.reader.message == Some(message),
        first_able(pre.writing.accounts@, k),
        forall|i: int|
            0 <= i < message.to@.len() ==> recipients::is_recipient((#[trigger] message.to@[i])@),
        writing::answered(pre, Answer::Sender, threading, subject, one),
        writing::answered(pre, Answer::Everyone, threading, subject, all),
    ensures
        all.writing.compose matches Some(it) && recipients::recipients_of(it.cc@) == everybody_else(
            text::texts(message.to@),
            pre.writing.accounts@,
            message.row.from@,
        ) && it.to@ == message.row.from@ && recipients::recipients_of(it.bcc@).len() == 0,
        one.writing.compose matches Some(it) && recipients::recipients_of(it.cc@).len() == 0
            && it.to@ == message.row.from@ && recipients::recipients_of(it.bcc@).len() == 0,
{
    let accounts = pre.writing.accounts@;
    lemma_sender(accounts, k);
    let from = message.row.from@;
    let to = text::texts(message.to@);
    reveal_strlit("");
    assert(""@ == Seq::<char>::empty());
    recipients::joined_recipients_come_back(Seq::empty());
    assert(text::joined(Seq::<Seq<char>>::empty(), ", "@) == Seq::<char>::empty());
    lemma_everybody_else(message.to@, accounts, from);
    assert forall|i: int| 0 <= i < to.len() implies recipients::is_recipient(#[trigger] to[i]) by {
        assert(recipients::is_recipient(message.to@[i]@));
    }
    lemma_kept_by_filter(to, accounts, from);
    recipients::joined_recipients_come_back(everybody_else(to, accounts, from));
}

/// A message is written from the first account that can send, whatever it starts from, and is
/// written wherever there is one.
pub proof fn a_message_is_written_from_an_account_that_can_send(
    pre: Shell,
    k: int,
    message: Message,
    answer: Answer,
    threading: Threading,
    subject: String,
    blank: Shell,
    answered: Shell,
)
    requires
        first_able(pre.writing.accounts@, k),
        pre.reader.message == Some(message),
        !(answer is Source),
        writing::compose_started(pre, blank),
        writing::answered(pre, answer, threading, subject, answered),
    ensures
        blank.writing.compose matches Some(it) && it.account == pre.writing.accounts@[k].id,
        answered.writing.compose matches Some(it) && it.account == pre.writing.accounts@[k].id,
{
    lemma_sender(pre.writing.accounts@, k);
}

/// A reply continues the thread of the message, under the subject of a reply; a forward belongs to
/// no thread, goes to nobody yet, and takes up every file of the message, in order.
pub proof fn a_reply_continues_the_thread_and_a_forward_does_not(
    pre: Shell,
    k: int,
    message: Message,
    everyone: bool,
    threading: Threading,
    subject: String,
    reply: Shell,
    forward: Shell,
)
    requires
        pre.reader.message == Some(message),
        first_able(pre.writing.accounts@, k),
        writing::answered(
            pre,
            if everyone {
                Answer::Everyone
            } else {
                Answer::Sender
            },
            threading,
            subject,
            reply,
        ),
        writing::answered(pre, Answer::Forward, threading, subject, forward),
    ensures
        reply.writing.compose matches Some(it) && it.in_reply_to == threading.in_reply_to
            && it.references@ == threading.references@ && it.subject@ == subject@ && it.sign
            && it.draft is None && it.attachments@.len() == 0,
        writing::answer_asks(pre, Answer::Sender).len() == 0,
        writing::answer_asks(pre, Answer::Everyone).len() == 0,
        forward.writing.compose matches Some(it) && it.in_reply_to is None && it.references@.len()
            == 0 && it.to@.len() == 0 && it.cc@.len() == 0 && it.bcc@.len() == 0 && it.sign
            && it.draft is None,
        writing::answer_asks(pre, Answer::Forward).len() == message.attachments@.len(),
        forall|i: int|
            0 <= i < message.attachments@.len() ==> (#[trigger] writing::answer_asks(
                pre,
                Answer::Forward,
            )[i] matches Request::StagePart { id, part } && id == message.row.id && part == i),
        reply.reader == pre.reader && forward.reader == pre.reader,
        reply.list == pre.list && forward.list == pre.list,
{
    lemma_sender(pre.writing.accounts@, k);
    reveal_strlit("");
    assert(message.attachments.len() as int == message.attachments@.len());
}

/// A forward is marked as one, once: the mark is put before a subject that has none.
pub proof fn a_forward_is_marked_once(subject: Seq<char>, lowered: Seq<char>)
    ensures
        text::starts(lowered, "tr:"@) ==> writing::forward_subject(subject, lowered) == subject,
        !text::starts(lowered, "tr:"@) ==> text::starts(
            writing::forward_subject(subject, lowered),
            "Tr: "@,
        ) && writing::forward_subject(subject, lowered).skip(4) == subject,
{
    reveal_strlit("Tr: ");
    let marked = "Tr: "@ + subject;
    assert(marked.take(4) == "Tr: "@);
    assert(marked.skip(4) == subject);
}

// ---------------------------------------------------------------------------------------------
// What an answer quotes
// ---------------------------------------------------------------------------------------------

/// What lines take once each has a mark of two bytes and an end of one.
pub open spec fn marked_size(lines: Seq<Seq<char>>) -> nat
    decreases lines.len(),
{
    if lines.len() == 0 {
        0
    } else {
        marked_size(lines.drop_last()) + utf8::byte_len(lines.last()) + 3
    }
}

proof fn lemma_marked_size(lines: Seq<Seq<char>>)
    ensures
        utf8::byte_len(quote::cited(lines)) == marked_size(lines),
    decreases lines.len(),
{
    if lines.len() > 0 {
        let front = lines.drop_last();
        let last = seq![lines.last()];
        lemma_marked_size(front);
        assert(front + last == lines);
        quote::lemma_cited_of_sum(front, last);
        quote::lemma_cited_line(lines.last());
        utf8::lemma_byte_len_of_sum(quote::cited(front), quote::cited(last));
    } else {
        assert(quote::cited(lines) == Seq::<char>::empty());
    }
}

/// Whether a text is these lines, each behind a quotation mark and with an end.
pub open spec fn quotes(quotation: Seq<char>, lines: Seq<Seq<char>>) -> bool {
    let pieces = text::split(quotation, '\n');
    &&& pieces.len() == lines.len() + 1
    &&& pieces.last() == Seq::<char>::empty()
    &&& forall|i: int| 0 <= i < lines.len() ==> #[trigger] pieces[i] == seq!['>', ' '] + lines[i]
}

/// Whether a text attributes a quotation: two empty lines to write in, then the date and who wrote.
pub open spec fn attributes(above: Seq<char>, message: Message) -> bool {
    &&& above.len() >= 3
    &&& above[0] == '\n' && above[1] == '\n'
    &&& above.last() == '\n'
    &&& text::occurs(message.row.from@, above)
    &&& text::occurs(dates::full_date_text(message.row.date as int), above)
    &&& match message.row.from_name {
        Some(name) => text::trimmed(name@).len() > 0 ==> text::occurs(name@, above),
        None => true,
    }
}

proof fn lemma_occurs(a: Seq<char>, needle: Seq<char>, b: Seq<char>)
    ensures
        text::occurs(needle, a + needle + b),
{
    let all = a + needle + b;
    let at = a.len() as int;
    assert(all.subrange(at, at + needle.len()) == needle);
}

proof fn lemma_occurs_in(needle: Seq<char>, s: Seq<char>, a: Seq<char>, b: Seq<char>)
    requires
        text::occurs(needle, s),
    ensures
        text::occurs(needle, a + s + b),
{
    let i = choose|i: int|
        0 <= i && i + needle.len() <= s.len() && #[trigger] s.subrange(i, i + needle.len())
            == needle;
    let all = a + s + b;
    assert(all.subrange(a.len() + i, a.len() + i + needle.len()) == s.subrange(
        i,
        i + needle.len(),
    ));
}

proof fn lemma_sender_is_named(from: Seq<char>, name: Option<Seq<char>>)
    ensures
        text::occurs(from, quote::sender_text(from, name)),
{
    let who = quote::sender_text(from, name);
    let none = Seq::<char>::empty();
    if who == from {
        assert(who == none + from + none);
        lemma_occurs(none, from, none);
    } else {
        let n = name->0;
        assert(who == (n + " <"@) + from + ">"@);
        lemma_occurs(n + " <"@, from, ">"@);
    }
}

proof fn lemma_attribution(message: Message)
    ensures
        attributes(quote::attribution(message), message),
{
    let above = quote::attribution(message);
    let date = dates::full_date_text(message.row.date as int);
    let from = message.row.from@;
    let who = quote::sender_text(from, text::opt_text(message.row.from_name));
    let end = " a écrit :\n"@;
    reveal_strlit("\n\nLe ");
    reveal_strlit(", ");
    reveal_strlit(" a écrit :\n");
    reveal_strlit(" <");
    reveal_strlit(">");
    assert(above == "\n\nLe "@ + date + (", "@ + who + end));
    lemma_occurs("\n\nLe "@, date, ", "@ + who + end);
    let lead = "\n\nLe "@ + date + ", "@;
    assert(above == lead + who + end);
    lemma_sender_is_named(from, text::opt_text(message.row.from_name));
    lemma_occurs_in(from, who, lead, end);
    match message.row.from_name {
        Some(name) => {
            if text::trimmed(name@).len() > 0 {
                assert(text::occurs(name@, who)) by {
                    if name@ != from {
                        assert(who == Seq::<char>::empty() + name@ + (" <"@ + from + ">"@));
                        lemma_occurs(Seq::empty(), name@, " <"@ + from + ">"@);
                    } else {
                        assert(who == Seq::<char>::empty() + name@ + Seq::<char>::empty());
                        lemma_occurs(Seq::empty(), name@, Seq::empty());
                    }
                }
                lemma_occurs_in(name@, who, lead, end);
            }
        },
        None => {},
    }
}

proof fn lemma_lines_hold_no_end(body: Seq<char>)
    ensures
        forall|i: int|
            0 <= i < text::lines(body).len() ==> !(#[trigger] text::lines(body)[i]).contains('\n'),
{
    let lines = text::lines(body);
    let pieces = text::split(body, '\n');
    quote::lemma_split_pieces(body, '\n');
    assert forall|i: int| 0 <= i < lines.len() implies !(#[trigger] lines[i]).contains('\n') by {
        assert(!pieces[i].contains('\n'));
        if i < pieces.len() - 1 {
            assert(lines[i] == text::without_cr(pieces[i]));
            assert forall|k: int| 0 <= k < lines[i].len() implies lines[i][k] != '\n' by {
                assert(pieces[i][k] == lines[i][k]);
            }
        }
    }
}

/// A reply quotes the message that it answers: below an attribution stands every line of its body,
/// in order, each behind its mark, where the whole takes no more than the bound.
pub proof fn a_reply_quotes_the_whole_message(
    pre: Shell,
    k: int,
    message: Message,
    everyone: bool,
    threading: Threading,
    subject: String,
    post: Shell,
) -> (parts: (Seq<char>, Seq<char>))
    requires
        pre.reader.message == Some(message),
        first_able(pre.writing.accounts@, k),
        writing::answered(
            pre,
            if everyone {
                Answer::Everyone
            } else {
                Answer::Sender
            },
            threading,
            subject,
            post,
        ),
        marked_size(text::lines(message.body@)) <= 32768,
    ensures
        post.writing.compose matches Some(it) && it.text@ == parts.0 + parts.1,
        attributes(parts.0, message),
        quotes(parts.1, text::lines(message.body@)),
{
    let lines = text::lines(message.body@);
    lemma_sender(pre.writing.accounts@, k);
    lemma_marked_size(lines);
    quote::a_cut_quotation_says_so(message.body@);
    lemma_lines_hold_no_end(message.body@);
    quote::lemma_cited_splits(lines);
    lemma_attribution(message);
    reveal_strlit("> ");
    assert("> "@ == seq!['>', ' ']);
    (quote::attribution(message), quote::quotation(message.body@))
}

/// A forward carries the message over: below its headers, which name who wrote it, to whom and
/// about what, stands its body, whole where it takes no more than the bound.
#[verifier::spinoff_prover]
#[verifier::rlimit(60)]
pub proof fn a_forward_carries_the_whole_message(
    pre: Shell,
    k: int,
    message: Message,
    threading: Threading,
    subject: String,
    post: Shell,
) -> (above: Seq<char>)
    requires
        pre.reader.message == Some(message),
        first_able(pre.writing.accounts@, k),
        writing::answered(pre, Answer::Forward, threading, subject, post),
        utf8::byte_len(message.body@) <= 32768,
    ensures
        post.writing.compose matches Some(it) && it.text@ == above + message.body@,
        text::occurs(message.row.from@, above),
        text::occurs(message.row.subject@, above),
        text::occurs(dates::full_date_text(message.row.date as int), above),
        message.to@.len() > 0 ==> text::occurs(
            text::joined(text::texts(message.to@), ", "@),
            above,
        ),
{
    lemma_sender(pre.writing.accounts@, k);
    let from = message.row.from@;
    let who = quote::sender_text(from, text::opt_text(message.row.from_name));
    let date = dates::full_date_text(message.row.date as int);
    let written = message.row.subject@;
    let first = "\n\n-------- Message transféré --------\n"@ + "De : "@;
    let head = first + who + "\n"@ + "Date : "@ + date + "\n"@ + "Sujet : "@ + written + "\n"@;
    let named = if message.to@.len() == 0 {
        head
    } else {
        head + "À : "@ + text::joined(text::texts(message.to@), ", "@) + "\n"@
    };
    let above = named + "\n"@;
    let rest = if message.to@.len() == 0 {
        "\n"@
    } else {
        "À : "@ + text::joined(text::texts(message.to@), ", "@) + "\n"@ + "\n"@
    };
    assert(above == head + rest);
    lemma_sender_is_named(from, text::opt_text(message.row.from_name));
    let behind = "\n"@ + "Date : "@ + date + "\n"@ + "Sujet : "@ + written + "\n"@ + rest;
    assert(above == first + who + behind);
    lemma_occurs_in(from, who, first, behind);
    let before = first + who + "\n"@ + "Date : "@;
    let after = "\n"@ + "Sujet : "@ + written + "\n"@ + rest;
    assert(above == before + date + after);
    lemma_occurs(before, date, after);
    let before = first + who + "\n"@ + "Date : "@ + date + "\n"@ + "Sujet : "@;
    assert(above == before + written + ("\n"@ + rest));
    lemma_occurs(before, written, "\n"@ + rest);
    if message.to@.len() > 0 {
        let to = text::joined(text::texts(message.to@), ", "@);
        assert(above == (head + "À : "@) + to + ("\n"@ + "\n"@));
        lemma_occurs(head + "À : "@, to, "\n"@ + "\n"@);
    }
    assert(quote::forwarded_text(message) == above + message.body@);
    above
}

} // verus!
