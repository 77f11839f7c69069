//! The measuring runs and the probing of servers: what is measured is what is said to be, and an
//! order is an order.
use crate::absorb;
use crate::accounts::FullAccount;
use crate::actions;
use crate::bench;
use crate::bench::{Bench, Phase, Probe, Verdict};
use crate::cli::probe;
use crate::cli::probe::Findings;
use crate::dto::Folder;
use crate::laws::queue;
use crate::protocol::Request;
use crate::shell::Shell;
use crate::signature::Document;
use crate::text;
use crate::trial;
use crate::trial::{Progress, Startup};
use crate::utf8;
use vstd::prelude::*;
use vstd::string::*;

verus! {

// ---------------------------------------------------------------------------------------------
// The runs
// ---------------------------------------------------------------------------------------------

/// A word asks for the run that it names, and any other word for an ordinary one.
pub proof fn a_word_asks_for_the_run_it_names(word: &str, run: Bench, none: Bench)
    requires
        call_ensures(Bench::named, (Some(word),), run),
        call_ensures(Bench::named, (None,), none),
    ensures
        none == Bench::Off,
        word@ == "startup"@ <==> run == Bench::Startup,
        run == Bench::Scroll ==> word@ == "scroll"@,
        run == Bench::Offline ==> word@ == "offline"@,
        run == Bench::Open ==> word@ == "open"@,
        run == Bench::Signature ==> word@ == "signature"@,
        run == Bench::Off ==> word@ != "scroll"@ && word@ != "offline"@ && word@ != "open"@ && word@
            != "signature"@,
{
}

/// A failure of the transport is a clean one, a refusal is not; and both probes are waited for.
pub proof fn a_clean_failure_is_one_of_the_transport(
    clean: Verdict,
    refused: Verdict,
    it: &Probe,
    over: bool,
)
    requires
        call_ensures(Probe::verdict, (true,), clean),
        call_ensures(Probe::verdict, (false,), refused),
        call_ensures(Probe::complete, (it,), over),
    ensures
        clean == Verdict::CleanFailure,
        refused == Verdict::Refused,
        over <==> it.open is Some && it.search is Some,
{
}

/// The biggest folder holds at least as much as any other.
pub proof fn the_biggest_folder_holds_the_most(folders: &Vec<Folder>, found: Option<i64>) -> (k: int)
    requires
        call_ensures(trial::biggest_folder, (folders,), found),
    ensures
        found is Some <==> folders@.len() > 0,
        folders@.len() > 0 ==> 0 <= k < folders@.len() && found == Some(folders@[k].id)
            && forall|j: int|
            0 <= j < folders@.len() ==> (#[trigger] folders@[j]).total <= folders@[k].total,
{
    if folders@.len() > 0 {
        let k = choose|k: int| trial::is_biggest(folders@, k);
        assert(trial::is_biggest(folders@, k));
        assert forall|j: int| 0 <= j < folders@.len() implies (#[trigger] folders@[j]).total
            <= folders@[k].total by {}
        k
    } else {
        0
    }
}

/// A measured frame counts once, one that was not measured does not, and the run is over with the
/// last of its frames and not before.
pub proof fn a_measured_frame_counts_once(
    shell: &mut Shell,
    elapsed: u64,
    sample: bool,
    out: &mut Vec<Request>,
    progress: Progress,
)
    requires
        call_ensures(Shell::advance_bench, (shell, elapsed, sample, out), progress),
        old(shell).trial.state.phase == Phase::Scrolling,
        old(shell).trial.state.scrolling < 600,
    ensures
        final(shell).trial.state.scrolling == old(shell).trial.state.scrolling + (if sample {
            1int
        } else {
            0int
        }),
        progress == Progress::Report <==> final(shell).trial.state.scrolling == 600,
        final(shell).trial.state.phase == Phase::Done <==> progress == Progress::Report,
        final(shell).list == old(shell).list,
        final(out)@ == old(out)@,
{
    let more = choose|more: Seq<Request>| #[trigger]
        trial::scroll_step(*old(shell), elapsed, sample, *final(shell), more, progress)
            && final(out)@ == old(out)@ + more;
    assert(trial::scroll_step(*old(shell), elapsed, sample, *final(shell), more, progress));
    assert(final(out)@ == old(out)@);
}

/// The scrolling run opens the biggest folder and reads it to its end before anything is measured.
pub proof fn the_biggest_folder_is_read_first(
    shell: &mut Shell,
    elapsed: u64,
    sample: bool,
    out: &mut Vec<Request>,
    progress: Progress,
    id: i64,
)
    requires
        call_ensures(Shell::advance_bench, (shell, elapsed, sample, out), progress),
        call_ensures(trial::biggest_folder, (&old(shell).list.folders,), Some(id)),
        old(shell).trial.state.phase == Phase::Waiting,
    ensures
        old(shell).list.current != Some(id) ==> progress == Progress::Continue && final(out)@
            == old(out)@.push(Request::Page { folder: id, after: None, limit: 100 })
            && final(shell).list.current == Some(id) && final(shell).list.rows@.len() == 0,
        old(shell).list.current == Some(id) && old(shell).list.exhausted ==> progress
            == Progress::Loaded && final(shell).trial.state.phase == Phase::Idle && final(out)@
            == old(out)@,
        final(shell).trial.state.scrolling == old(shell).trial.state.scrolling,
        final(shell).trial.state.idle == old(shell).trial.state.idle,
{
    let more = choose|more: Seq<Request>| #[trigger]
        trial::scroll_step(*old(shell), elapsed, sample, *final(shell), more, progress)
            && final(out)@ == old(out)@ + more;
    assert(trial::scroll_step(*old(shell), elapsed, sample, *final(shell), more, progress));
    if old(shell).list.current != Some(id) {
        assert(trial::waits(*old(shell), *final(shell), more));
        assert(absorb::shows_folder(*old(shell), id, *final(shell)));
        assert(final(out)@ == old(out)@.push(
            Request::Page { folder: id, after: None, limit: 100 },
        ));
    } else if old(shell).list.exhausted {
        assert(final(out)@ == old(out)@);
    }
}

/// The opening run opens the rows one after the other, and a message counts as drawn where it is the
/// one that was asked for and has something to draw.
pub proof fn a_message_counts_where_it_was_drawn(
    asked: &mut Shell,
    a: &mut Vec<Request>,
    first: Progress,
    shown: &mut Shell,
    b: &mut Vec<Request>,
    then: Progress,
    target: i64,
)
    requires
        call_ensures(Shell::advance_open, (asked, a), first),
        old(asked).trial.state.phase == Phase::Opening,
        old(asked).trial.state.open_target is None,
        old(asked).trial.state.open_index < old(asked).list.rows@.len() < usize::MAX,
        old(asked).trial.state.opens + old(asked).trial.state.open_empty < 30,
        call_ensures(Shell::advance_open, (shown, b), then),
        old(shown).trial.state.phase == Phase::Opening,
        old(shown).trial.state.open_target == Some(target),
        !old(shown).reader.opening,
        old(shown).trial.state.opens < usize::MAX,
    ensures
        final(asked).trial.state.open_target == Some(
            old(asked).list.rows@[old(asked).trial.state.open_index as int].id,
        ),
        final(asked).trial.state.open_index == old(asked).trial.state.open_index + 1,
        final(a)@.len() > old(a)@.len(),
        final(a)@[old(a)@.len() as int] == (Request::Open {
            id: old(asked).list.rows@[old(asked).trial.state.open_index as int].id,
            remote_images: false,
        }),
        then == Progress::Drawn <==> old(shown).reader.body@.len() > 0 && (
        old(shown).reader.message matches Some(message) && message.row.id == target),
        then == Progress::Drawn || then == Progress::Empty,
        then == Progress::Drawn ==> final(shown).trial.state.opens
            == old(shown).trial.state.opens + 1,
        then == Progress::Empty ==> final(shown).trial.state.opens
            == old(shown).trial.state.opens,
        final(shown).trial.state.open_target is None,
{
    let more = choose|more: Seq<Request>| #[trigger]
        trial::open_step(*old(asked), *final(asked), more, first) && final(a)@ == old(a)@ + more;
    assert(trial::open_step(*old(asked), *final(asked), more, first));
    let id = old(asked).list.rows@[old(asked).trial.state.open_index as int].id;
    assert(more == actions::opening_asks(*old(asked), id, false));
    assert(final(a)@[old(a)@.len() as int] == more[0]);
    let none = choose|more: Seq<Request>| #[trigger]
        trial::open_step(*old(shown), *final(shown), more, then) && final(b)@ == old(b)@ + more;
    assert(trial::open_step(*old(shown), *final(shown), none, then));
}

/// Once the service is down, and not before, the first message is asked for and a search is made;
/// the list is then scrolled once both have ended.
pub proof fn the_probes_are_sent_once_the_service_is_down(
    up: &mut Shell,
    a: &mut Vec<Request>,
    waiting: Progress,
    down: &mut Shell,
    b: &mut Vec<Request>,
    probing: Progress,
    over: &mut Shell,
    c: &mut Vec<Request>,
    scrolling: Progress,
)
    requires
        call_ensures(Shell::advance_offline, (up, false, a), waiting),
        old(up).trial.state.phase == Phase::WaitingDown,
        old(up).notices.offline is None,
        call_ensures(Shell::advance_offline, (down, false, b), probing),
        old(down).trial.state.phase == Phase::WaitingDown,
        old(down).notices.offline is Some,
        old(down).list.rows@.len() > 0,
        call_ensures(Shell::advance_offline, (over, false, c), scrolling),
        old(over).trial.state.phase == Phase::Probing,
    ensures
        *final(up) == *old(up) && final(a)@ == old(a)@,
        final(down).trial.state.phase == Phase::Probing,
        final(b)@.len() == old(b)@.len() + 2,
        final(b)@[old(b)@.len() as int] == (Request::Open {
            id: old(down).list.rows@[0].id,
            remote_images: false,
        }),
        final(b)@[old(b)@.len() + 1int] matches Request::Search { query, limit: _ } && query@
            == "facture"@,
        final(down).list == old(down).list,
        final(over).trial.state.phase == Phase::Scrolling <==> old(over).trial.probe.open is Some
            && old(over).trial.probe.search is Some,
        final(c)@ == old(c)@,
{
    let wishes = trial::probe_asks(old(down).list);
    assert(actions::asked(old(b)@, final(b)@, wishes));
    assert(actions::grants(final(b)@[old(b)@.len() + 0int], wishes[0]));
    assert(actions::grants(final(b)@[old(b)@.len() + 1int], wishes[1]));
}

/// The typing run types a character in the middle of the text at each frame, then pastes the document
/// that it was given.
pub proof fn the_typing_run_types_then_pastes(
    typing: &mut Shell,
    sample: bool,
    first: Progress,
    pasting: &mut Shell,
    document: Document,
    then: Progress,
) -> (at: int)
    requires
        call_ensures(Shell::advance_signature, (typing, sample, None), first),
        old(typing).trial.state.phase == Phase::Typing,
        old(typing).writing.editor is Some,
        call_ensures(Shell::advance_signature, (pasting, sample, Some(document)), then),
        old(pasting).trial.state.phase == Phase::Pasting,
        old(pasting).writing.editor is Some,
    ensures
        final(typing).writing.editor matches Some(after) && 0 <= at
            <= old(typing).writing.editor->0.buffer@.len() && after.buffer@
            == old(typing).writing.editor->0.buffer@.insert(at, 'é'),
        final(typing).writing.compose == old(typing).writing.compose,
        final(pasting).writing.editor matches Some(after) && after.document == document
            && after.buffer@ == document.text@,
        final(pasting).trial.state.phase == Phase::AfterPaste,
{
    let t = old(typing).writing.editor->0.buffer@;
    utf8::lemma_fitting_fits(t, utf8::byte_len(t) / 2);
    utf8::middle(t)
}

/// The scrolling run waits for the whole folder, but not for ever: after a while the rows that are
/// there will do, where they are enough. It then rests for its frames before it scrolls.
pub proof fn a_run_waits_then_rests(
    waiting: &mut Shell,
    elapsed: u64,
    a: &mut Vec<Request>,
    first: Progress,
    id: i64,
    resting: &mut Shell,
    sample: bool,
    b: &mut Vec<Request>,
    then: Progress,
)
    requires
        call_ensures(Shell::advance_bench, (waiting, elapsed, sample, a), first),
        call_ensures(trial::biggest_folder, (&old(waiting).list.folders,), Some(id)),
        old(waiting).trial.state.phase == Phase::Waiting,
        old(waiting).list.current == Some(id),
        !old(waiting).list.exhausted,
        call_ensures(Shell::advance_bench, (resting, elapsed, sample, b), then),
        old(resting).trial.state.phase == Phase::Idle,
        old(resting).trial.state.idle < 120,
    ensures
        elapsed > 25000 && old(waiting).list.rows@.len() >= 500 ==> first == Progress::Unfinished
            && final(waiting).trial.state.phase == Phase::Idle,
        elapsed <= 25000 || old(waiting).list.rows@.len() < 500 ==> first == Progress::Continue
            && final(waiting).trial.state.phase == Phase::Waiting,
        then == Progress::Continue,
        final(resting).trial.state.idle == old(resting).trial.state.idle + (if sample {
            1int
        } else {
            0int
        }),
        final(resting).trial.state.idle == 120 ==> final(resting).trial.state.phase
            == Phase::Scrolling,
        final(resting).trial.state.idle < 120 ==> final(resting).trial.state.phase == Phase::Idle,
        final(b)@ == old(b)@,
{
    let more = choose|more: Seq<Request>| #[trigger]
        trial::scroll_step(*old(waiting), elapsed, sample, *final(waiting), more, first)
            && final(a)@ == old(a)@ + more;
    assert(trial::scroll_step(*old(waiting), elapsed, sample, *final(waiting), more, first));
    let none = choose|more: Seq<Request>| #[trigger]
        trial::scroll_step(*old(resting), elapsed, sample, *final(resting), more, then)
            && final(b)@ == old(b)@ + more;
    assert(trial::scroll_step(*old(resting), elapsed, sample, *final(resting), none, then));
    assert(final(b)@ == old(b)@);
}

/// The opening run is over once it has opened its messages, those that drew nothing included, or has
/// come to the last row; the falling run waits for the service to fall once it has its rows, or all
/// those that there are.
pub proof fn a_run_ends_with_its_messages(
    opening: &mut Shell,
    a: &mut Vec<Request>,
    first: Progress,
    falling: &mut Shell,
    b: &mut Vec<Request>,
    then: Progress,
    id: i64,
)
    requires
        call_ensures(Shell::advance_open, (opening, a), first),
        old(opening).trial.state.phase == Phase::Opening,
        old(opening).trial.state.open_target is None,
        call_ensures(Shell::advance_offline, (falling, false, b), then),
        call_ensures(trial::biggest_folder, (&old(falling).list.folders,), Some(id)),
        old(falling).trial.state.phase == Phase::Waiting,
        old(falling).list.current == Some(id),
    ensures
        first == Progress::Report <==> old(opening).trial.state.opens + old(
            opening,
        ).trial.state.open_empty >= 30 || old(opening).trial.state.open_index >= old(
            opening,
        ).list.rows@.len(),
        first == Progress::Report ==> final(opening).trial.state.phase == Phase::Done,
        first != Progress::Report ==> final(opening).trial.state.phase == Phase::Opening,
        old(falling).list.rows@.len() >= 1000 || old(falling).list.exhausted ==> then
            == Progress::Loaded && final(falling).trial.state.phase == Phase::WaitingDown
            && final(b)@ == old(b)@,
        old(falling).list.rows@.len() < 1000 && !old(falling).list.exhausted ==> then
            == Progress::Continue && final(falling).trial.state.phase == Phase::Waiting,
{
    let more = choose|more: Seq<Request>| #[trigger]
        trial::open_step(*old(opening), *final(opening), more, first) && final(a)@ == old(a)@
            + more;
    assert(trial::open_step(*old(opening), *final(opening), more, first));
}

/// No two verdicts are said in the same word.
pub proof fn the_verdicts_are_told_apart(
    a: Verdict,
    b: Verdict,
    first: &'static str,
    second: &'static str,
)
    requires
        call_ensures(Verdict::as_str, (a,), first),
        call_ensures(Verdict::as_str, (b,), second),
    ensures
        a != b ==> first@ != second@,
        a == Verdict::Served ==> first@ == "servi"@,
        a == Verdict::CleanFailure ==> first@ == "echec_propre"@,
{
    reveal_strlit("servi");
    reveal_strlit("refus");
    reveal_strlit("echec_propre");
    reveal_strlit("aucune ligne");
    assert("servi"@[0] == 's' && "refus"@[0] == 'r' && "echec_propre"@[0] == 'e'
        && "aucune ligne"@[0] == 'a');
}

/// A start is over with its first rows; without any it is waited for a while, and then given up.
pub proof fn a_start_is_over_with_its_first_rows(elapsed: u64, shown: Startup, hidden: Startup)
    requires
        call_ensures(trial::startup, (true, elapsed), shown),
        call_ensures(trial::startup, (false, elapsed), hidden),
    ensures
        shown == Startup::Close,
        elapsed <= 10000 ==> hidden == Startup::Wait,
        elapsed > 10000 ==> hidden == Startup::GiveUp,
{
}

/// A count goes up by what is added, and stops at the largest number.
pub proof fn a_count_goes_up_by_what_is_added(n: usize, more: usize, r: usize)
    requires
        call_ensures(bench::count, (n, more), r),
    ensures
        n + more <= usize::MAX ==> r == n + more,
        n + more > usize::MAX ==> r == usize::MAX,
{
}

// ---------------------------------------------------------------------------------------------
// Probing servers
// ---------------------------------------------------------------------------------------------

/// Ordered numbers are the same numbers, from the smallest to the greatest.
pub proof fn ordered_numbers_are_the_same_numbers(numbers: &Vec<u64>, r: Vec<u64>)
    requires
        call_ensures(probe::order, (numbers,), r),
    ensures
        r@.to_multiset() == numbers@.to_multiset(),
        r@.len() == numbers@.len(),
        forall|i: int, j: int| 0 <= i < j < r@.len() ==> r@[i] <= r@[j],
{
    probe::ordering_keeps_the_numbers(numbers@);
}

/// Ordered words are the same words, and none comes before one that precedes it in a dictionary.
pub proof fn ordered_words_are_the_same_words(words: &Vec<String>, r: Vec<String>, i: int, j: int, k: int)
    requires
        call_ensures(probe::order_words, (words,), r),
        0 <= i < j < words@.len(),
        0 <= k < r@[i]@.len(),
        k < r@[j]@.len(),
        forall|m: int| 0 <= m < k ==> r@[i]@[m] == r@[j]@[m],
    ensures
        text::texts(r@).to_multiset() == text::texts(words@).to_multiset(),
        r@.len() == words@.len(),
        r@[i]@[k] <= r@[j]@[k],
{
    let all = text::texts(words@);
    probe::ordering_keeps_the_words(all);
    let out = text::texts(r@);
    assert(out[i] == r@[i]@ && out[j] == r@[j]@);
    assert(!probe::precedes(out[j], out[i]));
    if r@[j]@[k] < r@[i]@[k] {
        lemma_precedes(out[j], out[i], k);
    }
}

proof fn lemma_precedes(a: Seq<char>, b: Seq<char>, k: int)
    requires
        0 <= k < a.len(),
        k < b.len(),
        forall|m: int| 0 <= m < k ==> a[m] == b[m],
        a[k] < b[k],
    ensures
        probe::precedes(a, b),
    decreases k,
{
    if k > 0 {
        assert(a[0] == b[0]);
        let x = a.drop_first();
        let y = b.drop_first();
        assert forall|m: int| 0 <= m < k - 1 implies x[m] == y[m] by {
            assert(a[m + 1] == b[m + 1]);
        }
        lemma_precedes(x, y, k - 1);
    }
}

/// A number that the server gave is shown, and one that it did not give is shown as none.
pub proof fn a_number_that_was_not_given_is_not_shown(n: u32, given: String, missing: String)
    requires
        call_ensures(probe::show, (Some(n),), given),
        call_ensures(probe::show, (None,), missing),
    ensures
        given@ == text::dec(n as nat),
        missing@ != given@,
{
    probe::an_absence_is_no_number(n);
}

/// The report of a server names the account first; a failure is told, and nothing is then said of
/// the server.
pub proof fn a_server_that_failed_is_said_to_have(
    account: &FullAccount,
    findings: &Findings,
    detail: bool,
    lines: Vec<String>,
)
    requires
        call_ensures(probe::report, (account, findings, detail), lines),
    ensures
        lines@.len() >= 3,
        text::starts(
            lines@[0]@,
            "#"@ + text::signed_dec(account.id as int) + " "@ + account.display_name@,
        ),
        findings.failure matches Some(why) ==> lines@.len() == 3 && lines@[1]@ == "  échec : "@
            + why@,
        findings.failure is None ==> lines@.len() >= 13,
{
    let all = probe::report_text(*account, *findings, detail);
    assert(text::texts(lines@).len() == lines@.len());
    assert(lines@[0]@ == text::texts(lines@)[0]);
    assert(lines@[1]@ == text::texts(lines@)[1]);
    let lead = "#"@ + text::signed_dec(account.id as int) + " "@ + account.display_name@;
    assert(all[0] == lead + (" — "@ + probe::host_text(account.server)));
    assert(all[0].take(lead.len() as int) == lead);
    if findings.failure is None {
        lemma_answer(*findings, detail);
    }
}

proof fn lemma_answer(findings: Findings, detail: bool)
    ensures
        probe::answer_text(findings, detail).len() >= 12,
{
    let caps = findings.capabilities@;
    let base = seq![
        probe::watched_line(caps, "CONDSTORE"@),
        probe::watched_line(caps, "QRESYNC"@),
        probe::watched_line(caps, "LIST-EXTENDED"@),
        probe::watched_line(caps, "LIST-STATUS"@),
        probe::watched_line(caps, "ESEARCH"@),
        probe::watched_line(caps, "IDLE"@),
        "  ENABLE         condstore "@ + probe::yes(findings.condstore) + ", qresync "@
            + probe::yes(findings.qresync),
        "  LIST           "@ + text::dec(findings.listed as nat) + " boîtes, "@ + text::dec(
            findings.selectable as nat,
        ) + " sélectionnables — "@ + text::dec(findings.list_took as nat) + " ms"@,
        probe::list_status_line(findings),
        probe::examine_line(findings),
        "  capacités      "@ + text::joined(probe::words_ordered(text::texts(caps)), " "@),
    ];
    assert(probe::answer_text(findings, false) == base.push(""@));
    if detail && findings.states@.len() > 0 {
        let states = probe::state_lines(findings.states@);
        let head = base.push("  état des boîtes :"@);
        queue::lemma_each_said(head, "    "@, states);
        assert(probe::answer_text(findings, true) == text::each_said(head, "    "@, states).push(
            ""@,
        ));
    }
}

} // verus!
