//! Sending on the command line: who sends, what is said of a delivery, and the gestures on the
//! queue.
use crate::accounts;
use crate::accounts::FullAccount;
use crate::cli::send;
use crate::cli::send::{
    Gesture, Line, Next, OutboxCommand, Outcome, Peek, Report, SendState, Sender, ShownFile, Turn,
};
use crate::protocol::Decision;
use crate::text;
use vstd::prelude::*;
use vstd::string::*;

verus! {

/// Whether some line says these words.
pub open spec fn says(lines: Seq<String>, words: Seq<char>) -> bool {
    exists|i: int| 0 <= i < lines.len() && text::occurs(words, (#[trigger] lines[i])@)
}

proof fn lemma_occurs(a: Seq<char>, needle: Seq<char>, b: Seq<char>)
    ensures
        text::occurs(needle, a + needle + b),
{
    let all = a + needle + b;
    let at = a.len() as int;
    assert(all.subrange(at, at + needle.len()) == needle);
}

/// The lines that are said are as many as their texts, and each is its text.
proof fn lemma_lines(lines: Seq<String>)
    ensures
        text::texts(lines).len() == lines.len(),
        forall|i: int| 0 <= i < lines.len() ==> (#[trigger] lines[i])@ == text::texts(lines)[i],
{
}

/// Whether an account is the first of its number.
pub open spec fn is_account(list: Seq<FullAccount>, k: int, id: i64) -> bool {
    &&& 0 <= k < list.len()
    &&& list[k].id == id
    &&& forall|j: int| 0 <= j < k ==> (#[trigger] list[j]).id != id
}

proof fn lemma_rank(list: Seq<FullAccount>, k: int, id: i64)
    requires
        is_account(list, k, id),
    ensures
        accounts::rank_of(list, id) == k,
{
    accounts::the_rank_is_that_of_the_first(list, id);
    let r = accounts::rank_of(list, id);
    if r < k {
        assert(list[r].id != id);
    } else if k < r {
        assert(list[k].id != id);
    }
}

// ---------------------------------------------------------------------------------------------
// Who sends
// ---------------------------------------------------------------------------------------------

/// The account that sends is the one whose number was given, where it has a server; its name goes
/// with its address where the two differ.
pub proof fn the_sender_is_the_account_that_was_named(
    list: &Vec<FullAccount>,
    id: i64,
    k: int,
    found: Result<Sender, String>,
)
    requires
        call_ensures(send::sender, (list, id), found),
        is_account(list@, k, id),
    ensures
        list@[k].server is Some <==> found is Ok,
        found matches Ok(it) ==> it.rank == k && (list@[k].server matches Some(server) && (
        list@[k].display_name@ == server.username@ ==> it.name is None) && (
        list@[k].display_name@ != server.username@ ==> (it.name matches Some(name) && name@
            == list@[k].display_name@))),
{
    lemma_rank(list@, k, id);
}

/// An account that does not exist sends nothing, and is named in the refusal.
pub proof fn an_unknown_account_sends_nothing(
    list: &Vec<FullAccount>,
    id: i64,
    found: Result<Sender, String>,
)
    requires
        call_ensures(send::sender, (list, id), found),
        forall|j: int| 0 <= j < list@.len() ==> (#[trigger] list@[j]).id != id,
    ensures
        found matches Err(message) && text::occurs(text::signed_dec(id as int), message@),
{
    accounts::the_rank_is_that_of_the_first(list@, id);
    let r = accounts::rank_of(list@, id);
    if r < list@.len() {
        assert(list@[r].id != id);
    }
    lemma_occurs(
        "aucun compte #"@,
        text::signed_dec(id as int),
        " — voir `mail account list`"@,
    );
}

/// A trial shows the message and sends nothing; otherwise it is put in the queue, where the account
/// has a server to send to, and refused where it has none.
pub proof fn a_trial_sends_nothing(
    dry_run: bool,
    account: &FullAccount,
    next: Result<Next, String>,
)
    requires
        call_ensures(send::after_composing, (dry_run, account), next),
    ensures
        dry_run ==> next == Ok::<Next, String>(Next::Show),
        !dry_run && account.submission is Some ==> next == Ok::<Next, String>(Next::Queue),
        !dry_run && account.submission is None ==> next is Err,
{
}

// ---------------------------------------------------------------------------------------------
// What is said of a delivery
// ---------------------------------------------------------------------------------------------

/// Whether a text starts with the number of a line.
pub open spec fn is_numbered(words: Seq<char>, id: i64) -> bool {
    text::starts(words, seq!['#'] + text::signed_dec(id as int))
}

/// A delivery is told for what it was, under the number of its line and in the words of the server:
/// a success and a delay are no failures, a refusal and a doubt are, and the four are told apart.
pub proof fn a_delivery_is_told_for_what_it_was(
    id: i64,
    error: &Option<String>,
    sent: Report,
    deferred: Report,
    failed: Report,
    doubtful: Report,
)
    requires
        call_ensures(send::report, (id, Outcome::Sent, error), sent),
        call_ensures(send::report, (id, Outcome::Deferred, error), deferred),
        call_ensures(send::report, (id, Outcome::Failed, error), failed),
        call_ensures(send::report, (id, Outcome::Doubtful, error), doubtful),
    ensures
        sent.failure is None && deferred.failure is None,
        failed.failure matches Some(words) && is_numbered(words@, id),
        doubtful.failure matches Some(words) && is_numbered(words@, id),
        sent.lines@.len() > 0 && is_numbered(sent.lines@[0]@, id) && text::occurs(
            "envoyé"@,
            sent.lines@[0]@,
        ),
        deferred.lines@.len() > 0 && is_numbered(deferred.lines@[0]@, id) && text::occurs(
            "reporté"@,
            deferred.lines@[0]@,
        ),
        doubtful.lines@.len() > 0 && is_numbered(doubtful.lines@[0]@, id) && text::occurs(
            "INCERTAIN"@,
            doubtful.lines@[0]@,
        ),
        error matches Some(why) ==> text::occurs(why@, deferred.lines@[0]@) && (
        failed.failure matches Some(words) && text::occurs(why@, words@)) && says(
            doubtful.lines@,
            why@,
        ),
{
    let n = text::signed_dec(id as int);
    reveal_strlit("#");
    assert("#"@ == seq!['#']);
    let number = seq!['#'] + n;
    let opt = text::opt_text(*error);
    lemma_lines(sent.lines@);
    lemma_lines(deferred.lines@);
    lemma_lines(doubtful.lines@);
    let s = sent.lines@[0]@;
    assert(s == number + " envoyé."@);
    assert(s.take(number.len() as int) == number);
    reveal_strlit(" envoyé.");
    reveal_strlit("envoyé");
    assert(s == number.push(' ') + "envoyé"@ + seq!['.']);
    lemma_occurs(number.push(' '), "envoyé"@, seq!['.']);
    let d = deferred.lines@[0]@;
    let why = send::or_words(opt, "refus passager"@);
    assert(d == number + " reporté : "@ + why);
    assert(d.take(number.len() as int) == number);
    reveal_strlit(" reporté : ");
    reveal_strlit("reporté");
    assert(d == number.push(' ') + "reporté"@ + (seq![' ', ':', ' '] + why));
    lemma_occurs(number.push(' '), "reporté"@, seq![' ', ':', ' '] + why);
    assert(d == (number + " reporté : "@) + why + Seq::<char>::empty());
    lemma_occurs(number + " reporté : "@, why, Seq::empty());
    let f = failed.failure->0@;
    let why = send::or_words(opt, "refus définitif"@);
    assert(f == (number + " refusé : "@) + why + Seq::<char>::empty());
    assert(f.take(number.len() as int) == number);
    lemma_occurs(number + " refusé : "@, why, Seq::empty());
    let u = doubtful.failure->0@;
    assert(u.take(number.len() as int) == number);
    let l = doubtful.lines@[0]@;
    assert(l == number + " : ÉTAT INCERTAIN."@);
    assert(l.take(number.len() as int) == number);
    reveal_strlit(" : ÉTAT INCERTAIN.");
    reveal_strlit("INCERTAIN");
    assert(l == (number + seq![' ', ':', ' ', 'É', 'T', 'A', 'T', ' ']) + "INCERTAIN"@ + seq!['.']);
    lemma_occurs(
        number + seq![' ', ':', ' ', 'É', 'T', 'A', 'T', ' '],
        "INCERTAIN"@,
        seq!['.'],
    );
    match *error {
        Some(words) => {
            assert(doubtful.lines@[1]@ == text::texts(doubtful.lines@)[1]);
            assert(doubtful.lines@[1]@ == "    "@ + words@ + Seq::<char>::empty());
            lemma_occurs("    "@, words@, Seq::empty());
        },
        None => {},
    }
}

/// A line of the queue is delivered for its own account, where that one reads and sends; otherwise
/// it is passed over, under its own number.
pub proof fn a_line_is_delivered_for_its_account(
    list: &Vec<FullAccount>,
    account: i64,
    id: i64,
    k: int,
    found: Result<usize, String>,
)
    requires
        call_ensures(send::flush_account, (list, account, id), found),
        is_account(list@, k, account),
    ensures
        list@[k].server is Some && list@[k].submission is Some ==> found == Ok::<usize, String>(
            k as usize,
        ),
        list@[k].server is None || list@[k].submission is None ==> (found matches Err(line)
            && is_numbered(line@, id)),
{
    lemma_rank(list@, k, account);
    reveal_strlit("#");
    let number = seq!['#'] + text::signed_dec(id as int);
    match found {
        Err(line) => {
            assert(line@.take(number.len() as int) == number);
        },
        Ok(_) => {},
    }
}

/// How many lines did not leave.
pub open spec fn left_behind(turns: Seq<Turn>) -> nat
    decreases turns.len(),
{
    if turns.len() == 0 {
        0
    } else {
        left_behind(turns.drop_last()) + if turns.last() == Turn::Delivered(Outcome::Sent)
            || turns.last() == Turn::Delivered(Outcome::Deferred) {
            0nat
        } else {
            1nat
        }
    }
}

proof fn lemma_left_behind(turns: Seq<Turn>, n: int)
    requires
        0 <= n <= turns.len(),
    ensures
        send::stayed_among(turns, n) == left_behind(turns.take(n)),
    decreases n,
{
    if n > 0 {
        lemma_left_behind(turns, n - 1);
        assert(turns.take(n).drop_last() == turns.take(n - 1));
        assert(turns.take(n).last() == turns[n - 1]);
    } else {
        assert(turns.take(0) == Seq::<Turn>::empty());
    }
}

/// Emptying the queue fails exactly where a line did not leave, and says how many.
pub proof fn emptying_the_queue_says_how_many_stayed(turns: &Vec<Turn>, failure: Option<String>)
    requires
        call_ensures(send::flush_failure, (turns,), failure),
    ensures
        failure is None <==> left_behind(turns@) == 0,
        failure matches Some(words) ==> text::starts(words@, text::dec(left_behind(turns@))),
{
    lemma_left_behind(turns@, turns@.len() as int);
    assert(turns@.take(turns@.len() as int) == turns@);
    match failure {
        Some(words) => {
            let many = text::dec(left_behind(turns@));
            assert(words@.take(many.len() as int) == many);
        },
        None => {},
    }
}

// ---------------------------------------------------------------------------------------------
// The queue
// ---------------------------------------------------------------------------------------------

/// How far below the line of a message stands what is said of sending it again.
pub open spec fn below(it: Line) -> int {
    if it.last_error is Some {
        2
    } else {
        1
    }
}

/// How many lines a queue takes: one for each message, one for each reason, and one for each message
/// that can be sent again.
pub open spec fn told_lines(queue: Seq<Line>) -> int
    decreases queue.len(),
{
    if queue.len() == 0 {
        0
    } else {
        told_lines(queue.drop_last()) + below(queue.last()) + if queue.last().resendable {
            1int
        } else {
            0int
        }
    }
}

proof fn lemma_lines_said(queue: Seq<Line>, n: int, k: int) -> (at: int)
    requires
        0 <= k < n <= queue.len(),
    ensures
        0 <= at < send::lines_said(queue, n).len(),
        is_numbered(send::lines_said(queue, n)[at], queue[k].id),
        text::occurs(queue[k].sender@, send::lines_said(queue, n)[at]),
        text::occurs(
            text::joined(text::texts(queue[k].recipients@), ", "@),
            send::lines_said(queue, n)[at],
        ),
        text::occurs(queue[k].state.said(), send::lines_said(queue, n)[at]),
        queue[k].last_error matches Some(why) ==> at + 1 < send::lines_said(queue, n).len()
            && text::occurs(why@, send::lines_said(queue, n)[at + 1]),
        queue[k].resendable ==> at + below(queue[k]) < send::lines_said(queue, n).len()
            && text::occurs(
            "--retry "@ + text::signed_dec(queue[k].id as int),
            send::lines_said(queue, n)[at + below(queue[k])],
        ),
        send::lines_said(queue, n).len() == told_lines(queue.take(n)),
    decreases n,
{
    let before = send::lines_said(queue, n - 1);
    let all = send::lines_said(queue, n);
    let it = queue[n - 1];
    assert(all.take(before.len() as int) == before);
    assert(queue.take(n).drop_last() == queue.take(n - 1));
    assert(queue.take(n).last() == it);
    if n == 1 {
        assert(told_lines(queue.take(0)) == 0);
    } else {
        lemma_lines_said(queue, n - 1, n - 2);
    }
    if k < n - 1 {
        let at = lemma_lines_said(queue, n - 1, k);
        if queue[k].resendable {
            let next = at + below(queue[k]);
            assert(all[next] == all.take(before.len() as int)[next]);
        }
        assert(all[at] == all.take(before.len() as int)[at]);
        if queue[k].last_error is Some {
            assert(all[at + 1] == all.take(before.len() as int)[at + 1]);
        }
        at
    } else {
        let at = before.len() as int;
        reveal_strlit("#");
        let id = text::signed_dec(it.id as int);
        let number = seq!['#'] + id;
        let to = text::joined(text::texts(it.recipients@), ", "@);
        let said = it.state.said();
        let line = all[at];
        assert(line == "#"@ + id + " "@ + it.sender@ + " → "@ + to + " ["@ + said + "]"@);
        assert(line.take(number.len() as int) == number);
        assert(line == ("#"@ + id + " "@) + it.sender@ + (" → "@ + to + " ["@ + said + "]"@));
        lemma_occurs("#"@ + id + " "@, it.sender@, " → "@ + to + " ["@ + said + "]"@);
        let lead = "#"@ + id + " "@ + it.sender@ + " → "@;
        assert(line == lead + to + (" ["@ + said + "]"@));
        lemma_occurs(lead, to, " ["@ + said + "]"@);
        let lead = lead + to + " ["@;
        assert(line == lead + said + "]"@);
        lemma_occurs(lead, said, "]"@);
        match it.last_error {
            Some(why) => {
                assert(all[at + 1] == "    "@ + why@ + Seq::<char>::empty());
                lemma_occurs("    "@, why@, Seq::empty());
            },
            None => {},
        }
        if it.resendable {
            let retry = "--retry "@ + id;
            let tail = "` pour le renvoyer tel quel."@;
            reveal_strlit("    `mail outbox --retry ");
            reveal_strlit("--retry ");
            assert("    `mail outbox --retry "@ == "    `mail outbox --retry "@.take(17)
                + "--retry "@);
            let lead = "    `mail outbox --retry "@.take(17);
            assert(all[at + below(it)] == lead + retry + tail);
            lemma_occurs(lead, retry, tail);
        }
        at
    }
}

/// The queue is listed whole: every line of it is there, with its number, who it is from and to,
/// where it stands and why, and how it is sent again where it can be; and no other line is.
pub proof fn the_queue_is_listed_whole(queue: &Vec<Line>, lines: Vec<String>, k: int) -> (at: int)
    requires
        call_ensures(send::list, (queue,), lines),
        0 <= k < queue@.len(),
    ensures
        0 <= at < lines@.len(),
        is_numbered(lines@[at]@, queue@[k].id),
        text::occurs(queue@[k].sender@, lines@[at]@),
        text::occurs(text::joined(text::texts(queue@[k].recipients@), ", "@), lines@[at]@),
        text::occurs(queue@[k].state.said(), lines@[at]@),
        queue@[k].last_error matches Some(why) ==> at + 1 < lines@.len() && text::occurs(
            why@,
            lines@[at + 1]@,
        ),
        queue@[k].resendable ==> at + below(queue@[k]) < lines@.len() && text::occurs(
            "--retry "@ + text::signed_dec(queue@[k].id as int),
            lines@[at + below(queue@[k])]@,
        ),
        lines@.len() == told_lines(queue@),
{
    let at = lemma_lines_said(queue@, queue@.len() as int, k);
    assert(lines@[at]@ == text::texts(lines@)[at]);
    if queue@[k].last_error is Some {
        assert(lines@[at + 1]@ == text::texts(lines@)[at + 1]);
    }
    if queue@[k].resendable {
        let next = at + below(queue@[k]);
        assert(lines@[next]@ == text::texts(lines@)[next]);
    }
    assert(queue@.take(queue@.len() as int) == queue@);
    at
}

/// No two states of a line are said in the same words, and a doubt is said to be one.
pub proof fn the_states_of_a_line_are_told_apart(a: SendState, b: SendState)
    ensures
        a != b ==> a.said() != b.said(),
        text::starts(SendState::Committing.said(), "DOUTEUX"@),
        SendState::Sent.said() == "envoyé"@,
{
    reveal_strlit("en attente");
    reveal_strlit("interrompu avant le corps — sera repris");
    reveal_strlit("DOUTEUX — peut-être parti, aucune reprise automatique");
    reveal_strlit("envoyé");
    reveal_strlit("échoué");
    reveal_strlit("DOUTEUX");
    assert(SendState::Committing.said().take(7) =~= "DOUTEUX"@);
    assert(SendState::Queued.said().len() == 10);
    assert(SendState::Sending.said().len() == 39);
    assert(SendState::Committing.said().len() == 53);
    assert(SendState::Sent.said()[0] == 'e');
    assert(SendState::Failed.said()[0] == 'é');
    assert(SendState::Sent.said().len() == 6);
    assert(SendState::Failed.said().len() == 6);
}

/// An option of the queue is the gesture that it names, on the line that it names.
pub proof fn an_option_is_the_gesture_it_names(
    id: i64,
    others: (Option<i64>, Option<i64>, Option<i64>),
    resend: OutboxCommand,
    accept: OutboxCommand,
    retry: OutboxCommand,
    forget: OutboxCommand,
    none: OutboxCommand,
)
    requires
        call_ensures(send::outbox_command, (Some(id), others.0, others.1, others.2), resend),
        call_ensures(send::outbox_command, (None, Some(id), others.1, others.2), accept),
        call_ensures(send::outbox_command, (None, None, Some(id), others.2), retry),
        call_ensures(send::outbox_command, (None, None, None, Some(id)), forget),
        call_ensures(send::outbox_command, (None, None, None, None), none),
    ensures
        resend == OutboxCommand::Gesture(id, Gesture::Decide(Decision::Resend)),
        accept == OutboxCommand::Gesture(id, Gesture::Decide(Decision::Accept)),
        retry == OutboxCommand::Gesture(id, Gesture::Retry),
        forget == OutboxCommand::Gesture(id, Gesture::Forget),
        none is List,
{
}

/// What is said of a gesture names the line that it was made on, and says which it was: only what
/// sends again says that the line is in the queue once more.
pub proof fn a_gesture_is_told_for_what_it_was(
    id: i64,
    resend: Vec<String>,
    accept: Vec<String>,
    retry: Vec<String>,
    forget: Vec<String>,
    cancel: Vec<String>,
)
    requires
        call_ensures(send::gesture_made, (id, Gesture::Decide(Decision::Resend)), resend),
        call_ensures(send::gesture_made, (id, Gesture::Decide(Decision::Accept)), accept),
        call_ensures(send::gesture_made, (id, Gesture::Retry), retry),
        call_ensures(send::gesture_made, (id, Gesture::Forget), forget),
        call_ensures(send::gesture_made, (id, Gesture::Cancel), cancel),
    ensures
        resend@.len() > 0 && is_numbered(resend@[0]@, id) && text::occurs(
            "remis en file"@,
            resend@[0]@,
        ),
        accept@.len() > 0 && is_numbered(accept@[0]@, id) && text::occurs(
            "marqué envoyé"@,
            accept@[0]@,
        ),
        retry@.len() > 0 && is_numbered(retry@[0]@, id) && text::occurs(
            "remis en file"@,
            retry@[0]@,
        ),
        forget@.len() > 0 && is_numbered(forget@[0]@, id) && text::occurs("retiré"@, forget@[0]@),
        cancel@.len() > 0 && is_numbered(cancel@[0]@, id) && text::occurs("annulé"@, cancel@[0]@),
{
    reveal_strlit("#");
    let number = "#"@ + text::signed_dec(id as int);
    assert(number == seq!['#'] + text::signed_dec(id as int));
    let n = number.len() as int;
    lemma_lines(resend@);
    lemma_lines(accept@);
    lemma_lines(retry@);
    lemma_lines(forget@);
    lemma_lines(cancel@);
    assert(resend@[0]@.take(n) == number);
    assert(accept@[0]@.take(n) == number);
    assert(retry@[0]@.take(n) == number);
    assert(forget@[0]@.take(n) == number);
    assert(cancel@[0]@.take(n) == number);
    reveal_strlit(" remis en file.");
    reveal_strlit("remis en file");
    reveal_strlit(" marqué envoyé. Aucun octet n'est parti.");
    reveal_strlit("marqué envoyé");
    reveal_strlit(" remis en file, compteur de tentatives remis à zéro.");
    reveal_strlit(" retiré de la file.");
    reveal_strlit("retiré");
    reveal_strlit(" annulé : il ne partira pas.");
    reveal_strlit("annulé");
    let at = n + 1;
    assert(resend@[0]@.subrange(at, at + "remis en file"@.len()) =~= "remis en file"@);
    assert(accept@[0]@.subrange(at, at + "marqué envoyé"@.len()) =~= "marqué envoyé"@);
    assert(retry@[0]@.subrange(at, at + "remis en file"@.len()) =~= "remis en file"@);
    assert(forget@[0]@.subrange(at, at + "retiré"@.len()) =~= "retiré"@);
    assert(cancel@[0]@.subrange(at, at + "annulé"@.len()) =~= "annulé"@);
}

// ---------------------------------------------------------------------------------------------
// The trial
// ---------------------------------------------------------------------------------------------

pub proof fn lemma_each_said(before: Seq<Seq<char>>, lead: Seq<char>, lines: Seq<Seq<char>>)
    ensures
        text::each_said(before, lead, lines).len() == before.len() + lines.len(),
        forall|i: int|
            0 <= i < before.len() ==> #[trigger] text::each_said(before, lead, lines)[i]
                == before[i],
        forall|i: int|
            0 <= i < lines.len() ==> text::each_said(before, lead, lines)[before.len() + i] == lead
                + #[trigger] lines[i],
    decreases lines.len(),
{
    if lines.len() > 0 {
        lemma_each_said(before, lead, lines.drop_last());
        let short = text::each_said(before, lead, lines.drop_last());
        let all = text::each_said(before, lead, lines);
        assert(all == short.push(lead + lines.last()));
        assert forall|i: int| 0 <= i < lines.len() implies all[before.len() + i] == lead
            + #[trigger] lines[i] by {
            if i < lines.len() - 1 {
                assert(lines.drop_last()[i] == lines[i]);
                assert(short[before.len() + i] == lead + lines.drop_last()[i]);
            }
        }
    }
}

/// A trial shows the envelope as it would leave: who sends, and every recipient, hidden ones
/// included, each on a line of its own and in order.
pub proof fn a_trial_shows_every_recipient(
    from: &str,
    recipients: &Vec<String>,
    size: &str,
    head: &str,
    files: &Vec<ShownFile>,
    lines: Vec<String>,
)
    requires
        call_ensures(send::shown, (from, recipients, size, head, files), lines),
    ensures
        lines@.len() >= recipients@.len() + 2,
        text::occurs(from@, lines@[1]@),
        forall|i: int|
            0 <= i < recipients@.len() ==> text::occurs(
                (#[trigger] recipients@[i])@,
                lines@[2 + i]@,
            ),
{
    let all = text::texts(recipients@);
    let s1 = Seq::<Seq<char>>::empty().push("Enveloppe SMTP"@).push(
        "  MAIL FROM: <"@ + from@ + ">"@,
    );
    let lead = "  RCPT TO:   "@;
    let named = send::bracketed(all);
    let s2 = text::each_said(s1, lead, named);
    lemma_each_said(s1, lead, named);
    let s3 = s2.push(""@).push("Message ("@ + size@ + ")"@);
    let heads = send::headers(head@);
    let s4 = text::each_said(s3, "  "@, heads);
    lemma_each_said(s3, "  "@, heads);
    let told = Seq::new(files@.len(), |i: int| send::file_line(files@[i]));
    let s5 = if told.len() > 0 {
        text::each_said(s4.push(""@).push("Pièces jointes"@), ""@, told)
    } else {
        s4
    };
    lemma_each_said(s4.push(""@).push("Pièces jointes"@), ""@, told);
    let whole = text::texts(lines@);
    assert(whole.len() >= s5.len());
    assert forall|i: int| 0 <= i < s2.len() implies whole[i] == s2[i] by {
        assert(s3[i] == s2[i]);
        assert(s4[i] == s3[i]);
        assert(s5[i] == s4[i]);
    }
    assert(lines@[1]@ == whole[1]);
    assert(whole[1] == s2[1]);
    assert(s2[1] == s1[1]);
    lemma_occurs("  MAIL FROM: <"@, from@, ">"@);
    assert forall|i: int| 0 <= i < recipients@.len() implies text::occurs(
        (#[trigger] recipients@[i])@,
        lines@[2 + i]@,
    ) by {
        assert(named[i] == "<"@ + recipients@[i]@ + ">"@);
        assert(s2[s1.len() + i] == lead + named[i]);
        assert(lines@[2 + i]@ == whole[2 + i]);
        assert(lead + named[i] == (lead + "<"@) + recipients@[i]@ + ">"@);
        lemma_occurs(lead + "<"@, recipients@[i]@, ">"@);
    }
}

/// A trial shows every file that the message carries, in order, with its size and the size that it
/// takes once it is encoded; and says so where there is none.
pub proof fn a_trial_shows_every_file(
    from: &str,
    recipients: &Vec<String>,
    size: &str,
    head: &str,
    files: &Vec<ShownFile>,
    lines: Vec<String>,
) -> (at: int)
    requires
        call_ensures(send::shown, (from, recipients, size, head, files), lines),
    ensures
        0 <= at,
        at + files@.len() <= lines@.len(),
        forall|i: int|
            0 <= i < files@.len() ==> {
                let line = lines@[at + i]@;
                &&& text::starts(
                    line,
                    "  "@ + (#[trigger] files@[i]).filename@ + " — "@ + files@[i].size@ + " ("@,
                )
                &&& text::occurs(files@[i].encoded@, line)
            },
        lines@.len() == recipients@.len() + send::headers(head@).len() + 6 + (if files@.len() > 0 {
            files@.len() + 3int
        } else {
            0int
        }),
{
    let all = text::texts(recipients@);
    let s1 = Seq::<Seq<char>>::empty().push("Enveloppe SMTP"@).push(
        "  MAIL FROM: <"@ + from@ + ">"@,
    );
    let s2 = text::each_said(s1, "  RCPT TO:   "@, send::bracketed(all));
    lemma_each_said(s1, "  RCPT TO:   "@, send::bracketed(all));
    let s3 = s2.push(""@).push("Message ("@ + size@ + ")"@);
    let s4 = text::each_said(s3, "  "@, send::headers(head@));
    lemma_each_said(s3, "  "@, send::headers(head@));
    let told = Seq::new(files@.len(), |i: int| send::file_line(files@[i]));
    let above = s4.push(""@).push("Pièces jointes"@);
    let s5 = text::each_said(above, ""@, told);
    lemma_each_said(above, ""@, told);
    let whole = text::texts(lines@);
    assert(whole.len() == lines@.len());
    let at = if files@.len() > 0 {
        above.len() as int
    } else {
        0
    };
    reveal_strlit("");
    assert forall|i: int| 0 <= i < files@.len() implies {
        let line = lines@[at + i]@;
        &&& text::starts(
            line,
            "  "@ + (#[trigger] files@[i]).filename@ + " — "@ + files@[i].size@ + " ("@,
        )
        &&& text::occurs(files@[i].encoded@, line)
    } by {
        let it = files@[i];
        let lead = "  "@ + it.filename@ + " — "@ + it.size@ + " ("@;
        assert(s5[above.len() + i] == ""@ + told[i]);
        assert(""@ + told[i] == told[i]);
        assert(lines@[at + i]@ == whole[at + i]);
        assert(whole[at + i] == s5[at + i]);
        assert(told[i] == lead + it.encoded@ + " une fois encodée)"@);
        assert(told[i].take(lead.len() as int) == lead);
        lemma_occurs(lead, it.encoded@, " une fois encodée)"@);
    }
    at
}

/// A sink keeps the first bytes of what it is given, as many as it may, and counts them all.
pub proof fn a_sink_keeps_the_first_bytes(peek: &mut Peek, buffer: &[u8], taken: usize)
    requires
        call_ensures(Peek::write, (peek, buffer), taken),
        old(peek).head@.len() <= 8192,
    ensures
        taken == buffer@.len(),
        old(peek).head@.len() + buffer@.len() <= 8192 ==> final(peek).head@ == old(peek).head@
            + buffer@,
        old(peek).head@.len() + buffer@.len() > 8192 ==> final(peek).head@ == (old(peek).head@
            + buffer@).take(8192),
        old(peek).total + buffer@.len() <= u64::MAX ==> final(peek).total == old(peek).total
            + buffer@.len(),
{
    if old(peek).head@.len() + buffer@.len() > 8192 {
        assert(final(peek).head@ =~= (old(peek).head@ + buffer@).take(8192));
    }
}

/// The headers of a message are its lines before the first that is empty.
pub proof fn the_headers_end_at_the_first_empty_line(
    head: &str,
    above: Seq<Seq<char>>,
    below: Seq<Seq<char>>,
    lines: Vec<String>,
)
    requires
        call_ensures(send::header_lines, (head,), lines),
        forall|i: int| 0 <= i < above.len() ==> (#[trigger] above[i]).len() > 0,
        text::lines(head@) == above + seq![Seq::<char>::empty()] + below || (below.len() == 0
            && text::lines(head@) == above),
    ensures
        text::texts(lines@) == above,
{
    let all = text::lines(head@);
    lemma_until_blank(all, above.len() as int, all.len() as int);
    assert(all.subrange(0, above.len() as int) == above);
}

proof fn lemma_until_blank(all: Seq<Seq<char>>, m: int, n: int)
    requires
        0 <= n <= all.len(),
        all.len() - n <= m <= all.len(),
        forall|i: int| all.len() - n <= i < m ==> (#[trigger] all[i]).len() > 0,
        m < all.len() ==> all[m].len() == 0,
    ensures
        send::until_blank(all, n) == all.subrange(all.len() - n, m),
    decreases n,
{
    let at = all.len() - n;
    if n > 0 && at < m {
        assert(all[at].len() > 0);
        lemma_until_blank(all, m, n - 1);
        assert(seq![all[at]] + all.subrange(at + 1, m) == all.subrange(at, m));
    } else {
        assert(all.subrange(at, m) == Seq::<Seq<char>>::empty());
    }
}

} // verus!
