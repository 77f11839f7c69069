//! The operations, and what is said of them: what holds of a relation here holds of every call.
use crate::absorb;
use crate::actions;
use crate::compose::Compose;
use crate::dto::Draft;
use crate::laws::sending;
use crate::protocol;
use crate::protocol::{Answer, Call, Decision, Reply, Request, SourceOf};
use crate::settings;
use crate::shell;
use crate::shell::{List, Shell};
use crate::text;
use crate::writing;
use crate::writing::{Answer as Gesture, Threading};
use vstd::prelude::*;
use vstd::string::*;

verus! {

/// An answer of the service makes of the interface what is said of it, and asks for what follows.
pub proof fn an_answer_is_absorbed(shell: &mut Shell, reply: Reply, now: u64, out: &mut Vec<Request>)
    requires
        call_ensures(Shell::absorb, (shell, reply, now, out), ()),
    ensures
        absorb::absorbed(*old(shell), reply, now, *final(shell)),
        final(out)@ == old(out)@ + absorb::asks_of(*old(shell), reply),
{
}

/// A folder that is opened is shown anew, and its first page is asked for: nothing else is.
pub proof fn a_folder_is_opened(shell: &mut Shell, id: i64, out: &mut Vec<Request>)
    requires
        call_ensures(Shell::open_folder, (shell, id, out), ()),
    ensures
        absorb::shows_folder(*old(shell), id, *final(shell)),
        final(out)@ == old(out)@.push(Request::Page { folder: id, after: None, limit: 100 }),
{
    assert(final(out)@ == old(out)@.push(Request::Page { folder: id, after: None, limit: 100 }));
}

/// A next page is asked for where one is to come: of the folder that is open, behind the cursor of
/// the last page, and not while one is on its way.
pub proof fn a_next_page_is_asked_for(list: &mut List, folder: i64, out: &mut Vec<Request>)
    requires
        call_ensures(List::request_page, (list, out), ()),
        old(list).current == Some(folder),
    ensures
        !old(list).loading_page && !old(list).exhausted && old(list).results is None ==> {
            &&& final(list).loading_page
            &&& final(out)@.len() == old(out)@.len() + 1
            &&& final(out)@.last() matches Request::Page { folder: of, after, limit }
            &&& of == folder
            &&& text::opt_text(after) == text::opt_text(old(list).cursor)
            &&& limit == 100
        },
        old(list).loading_page || old(list).exhausted || old(list).results is Some ==> *final(list)
            == *old(list) && final(out)@ == old(out)@,
        final(list).rows == old(list).rows,
        final(list).cursor == old(list).cursor,
        final(list).current == old(list).current,
{
    if old(list).loading_page || old(list).exhausted || old(list).results is Some {
        assert(final(out)@ == old(out)@);
    }
}

/// The open folder, when the store has moved, keeps its rows while its first page is read again.
pub proof fn a_folder_that_moved_is_read_again(list: &mut List, id: i64, out: &mut Vec<Request>)
    requires
        call_ensures(List::reload_folder, (list, id, out), ()),
        old(list).current == Some(id),
    ensures
        final(list).rows == old(list).rows,
        final(list).cursor == old(list).cursor,
        final(list).selected == old(list).selected,
        final(list).results == old(list).results,
        final(list).refreshing_head,
        final(out)@ == old(out)@.push(Request::Page { folder: id, after: None, limit: 100 }),
{
    assert(final(out)@ == old(out)@.push(Request::Page { folder: id, after: None, limit: 100 }));
}

/// Another folder than the open one is started anew: no row of the old one stays, and its first page
/// is asked for, unless one is on its way or the results of a search are shown.
pub proof fn another_folder_is_started_anew(list: &mut List, id: i64, out: &mut Vec<Request>)
    requires
        call_ensures(List::reload_folder, (list, id, out), ()),
        old(list).current != Some(id),
    ensures
        final(list).current == Some(id),
        final(list).rows@.len() == 0,
        final(list).cursor is None,
        !final(list).exhausted,
        final(list).results == old(list).results,
        final(list).selected == old(list).selected,
        final(list).refreshing_head == old(list).refreshing_head,
        !old(list).loading_page && old(list).results is None ==> final(list).loading_page
            && final(out)@ == old(out)@.push(Request::Page { folder: id, after: None, limit: 100 }),
        old(list).loading_page || old(list).results is Some ==> final(out)@ == old(out)@
            && final(list).loading_page == old(list).loading_page,
{
    if !old(list).loading_page && old(list).results is None {
        assert(final(out)@ == old(out)@.push(Request::Page { folder: id, after: None, limit: 100 }));
    } else {
        assert(final(out)@ == old(out)@);
    }
}

/// A request is handed to the service as its call says.
pub proof fn a_request_is_called(request: &Request, call: Call)
    requires
        call_ensures(protocol::describe, (request,), call),
    ensures
        protocol::calls(*request, call),
{
}

/// The end of a call is served as what it was.
pub proof fn the_end_of_a_call_is_served(request: Request, answer: Answer, reply: Reply)
    requires
        call_ensures(protocol::serve, (request, answer), reply),
    ensures
        protocol::served(request, answer, reply),
{
}

/// A draft is opened again as it is in the list: each field of the message is that of the draft.
pub proof fn a_draft_is_opened_field_by_field(draft: &Draft, it: Compose)
    requires
        call_ensures(Compose::reopened, (draft,), it),
    ensures
        it.account == draft.account,
        it.to@ == draft.to@,
        it.cc@ == draft.cc@,
        it.bcc@ == draft.bcc@,
        it.subject@ == draft.subject@,
        it.text@ == draft.body@,
        text::opt_text(it.in_reply_to) == text::opt_text(draft.in_reply_to),
        text::texts(it.references@) == text::texts(draft.references@),
        it.attachments@ == draft.attachments@,
        it.sign == draft.sign,
        it.draft == draft.id,
{
}

/// A copy of a message says the same.
pub proof fn a_copy_says_the_same(it: &Compose, copy: Compose)
    requires
        call_ensures(Compose::copy, (it,), copy),
    ensures
        sending::reads_as(copy, *it),
{
}

/// Opening a draft shows it as it was typed, and keeps what was being written first, as it was.
pub proof fn a_draft_is_opened(shell: &mut Shell, rank: usize, out: &mut Vec<Request>)
    requires
        call_ensures(Shell::open_draft, (shell, rank, out), ()),
        rank < old(shell).writing.drafts@.len(),
    ensures
        final(shell).writing.compose matches Some(it) && it.text@
            == old(shell).writing.drafts@[rank as int].body@ && it.subject@
            == old(shell).writing.drafts@[rank as int].subject@ && it.to@
            == old(shell).writing.drafts@[rank as int].to@ && it.cc@
            == old(shell).writing.drafts@[rank as int].cc@ && it.bcc@
            == old(shell).writing.drafts@[rank as int].bcc@ && it.draft
            == old(shell).writing.drafts@[rank as int].id && it.attachments@
            == old(shell).writing.drafts@[rank as int].attachments@,
        old(shell).writing.compose matches Some(current) ==> final(out)@.len() == old(out)@.len()
            + 1 && (final(out)@.last() matches Request::SaveDraft(kept) && sending::reads_as(
            *kept,
            current,
        )),
        old(shell).writing.compose is None ==> final(out)@ == old(out)@,
        writing::draft_opened(*old(shell), rank as int, *final(shell)),
{
    let wishes = writing::draft_open_asks(*old(shell), rank as int);
    match old(shell).writing.compose {
        Some(current) => {
            assert(actions::grants(final(out)@[old(out)@.len() + 0int], wishes[0]));
        },
        None => {
            assert(final(out)@.take(old(out)@.len() as int) == final(out)@);
        },
    }
}

/// Throwing a draft away has that draft deleted and the list read again.
pub proof fn a_draft_is_thrown_away(shell: &mut Shell, rank: usize, id: i64, out: &mut Vec<Request>)
    requires
        call_ensures(Shell::delete_draft, (shell, rank, out), ()),
        rank < old(shell).writing.drafts@.len(),
        old(shell).writing.drafts@[rank as int].id == Some(id),
    ensures
        final(out)@ == old(out)@ + seq![Request::DeleteDraft { id }, Request::Drafts],
        *final(shell) == writing::draft_deleted(*old(shell), rank as int),
{
}

/// A gesture on the open message makes the answer that is said of it.
pub proof fn a_gesture_answers_the_message(
    shell: &mut Shell,
    gesture: Gesture,
    threading: Threading,
    subject: String,
    out: &mut Vec<Request>,
)
    requires
        call_ensures(Shell::answer, (shell, gesture, threading, subject, out), ()),
    ensures
        writing::answered(*old(shell), gesture, threading, subject, *final(shell)),
        final(out)@ == old(out)@ + writing::answer_asks(*old(shell), gesture),
{
}

/// Replies, forwards and blank messages start as is said of them.
pub proof fn a_message_is_started(
    replied: &mut Shell,
    everyone: bool,
    threading: Threading,
    subject: String,
    forwarded: &mut Shell,
    out: &mut Vec<Request>,
    blank: &mut Shell,
)
    requires
        call_ensures(Shell::start_reply, (replied, everyone, threading, subject), ()),
        call_ensures(Shell::start_forward, (forwarded, out), ()),
        call_ensures(Shell::start_compose, (blank,), ()),
    ensures
        writing::answered(
            *old(replied),
            if everyone {
                Gesture::Everyone
            } else {
                Gesture::Sender
            },
            threading,
            subject,
            *final(replied),
        ),
        writing::answered(
            *old(forwarded),
            Gesture::Forward,
            threading,
            subject,
            *final(forwarded),
        ),
        final(out)@ == old(out)@ + writing::answer_asks(*old(forwarded), Gesture::Forward),
        writing::compose_started(*old(blank), *final(blank)),
{
}

/// A search is run and put away as is said of it.
pub proof fn a_search_is_run(shell: &mut Shell, out: &mut Vec<Request>, cleared: &mut Shell)
    requires
        call_ensures(Shell::run_search, (shell, out), ()),
        call_ensures(Shell::clear_search, (cleared,), ()),
    ensures
        *final(shell) == actions::search_run(*old(shell)),
        actions::asked(old(out)@, final(out)@, actions::search_asks(*old(shell))),
        actions::search_cleared(old(cleared).list, final(cleared).list),
        final(cleared).reader == old(cleared).reader,
        final(cleared).writing == old(cleared).writing,
{
}

/// A message is opened, and its source shown, as is said of them.
pub proof fn a_message_is_opened(
    shell: &mut Shell,
    id: i64,
    with_images: bool,
    out: &mut Vec<Request>,
    source: &mut Shell,
    asks: &mut Vec<Request>,
)
    requires
        call_ensures(Shell::open_message, (shell, id, with_images, out), ()),
        call_ensures(Shell::show_source, (source, asks), ()),
    ensures
        *final(shell) == actions::opening(*old(shell), id, with_images),
        final(out)@ == old(out)@ + actions::opening_asks(*old(shell), id, with_images),
        actions::source_shown(*old(source), *final(source)),
        final(asks)@ == old(asks)@ + actions::source_asks(*old(source)),
{
}

/// Drawing more of a body draws as many blocks again, and closes nothing.
pub proof fn more_of_a_body_is_drawn(shell: &mut Shell)
    requires
        call_ensures(Shell::show_more, (shell,), ()),
    ensures
        old(shell).reader.body_shown < usize::MAX ==> final(shell).reader.body_shown
            > old(shell).reader.body_shown,
        old(shell).reader.body_shown + 400 <= usize::MAX ==> final(shell).reader.body_shown
            == old(shell).reader.body_shown + 400,
        final(shell).reader.body == old(shell).reader.body,
        final(shell).reader.message == old(shell).reader.message,
        final(shell).list == old(shell).list,
{
}

/// The bytes of a line of the queue are asked for by its number, and shown under it.
pub proof fn the_bytes_of_a_line_are_its_own(shell: &mut Shell, id: i64, out: &mut Vec<Request>)
    requires
        call_ensures(Shell::show_outgoing, (shell, id, out), ()),
    ensures
        final(out)@ == old(out)@.push(Request::Source { of: SourceOf::Outgoing(id) }),
        final(shell).panels.source matches Some(view) && view.of == SourceOf::Outgoing(id)
            && view.found is None && view.error is None,
        final(shell).reader == old(shell).reader,
        final(shell).panels.outbox == old(shell).panels.outbox,
{
}

/// A doubt on a line of the queue is settled as the user decided, on that line; a refused line is
/// sent again, and only that one; and the queue is read again.
pub proof fn a_line_of_the_queue_gets_what_was_decided(
    shell: &Shell,
    id: i64,
    decision: Decision,
    decided: &mut Vec<Request>,
    retried: &mut Vec<Request>,
)
    requires
        call_ensures(Shell::decide, (shell, id, decision, decided), ()),
        call_ensures(Shell::retry, (shell, id, retried), ()),
    ensures
        final(decided)@ == old(decided)@ + seq![Request::Decide { id, decision }, Request::Outbox],
        final(retried)@ == old(retried)@ + seq![Request::Retry { id }, Request::Outbox],
{
}

/// The message that is held back is the last one that can be, once.
pub proof fn the_last_message_is_held_back_once(shell: &mut Shell, out: &mut Vec<Request>)
    requires
        call_ensures(Shell::cancel_sending, (shell, out), ()),
    ensures
        old(shell).notices.cancellable matches Some(id) ==> final(out)@ == old(out)@.push(
            Request::Cancel { id },
        ),
        old(shell).notices.cancellable is None ==> final(out)@ == old(out)@,
        final(shell).notices.cancellable is None,
        final(shell).notices.status == old(shell).notices.status,
        final(shell).writing == old(shell).writing,
        final(shell).panels == old(shell).panels,
{
}

/// A panel that is shown is read, one that is hidden is not, and shown and hidden it is as before.
pub proof fn a_panel_is_read_when_it_is_shown(
    outbox: &mut Shell,
    a: &mut Vec<Request>,
    drafts: &mut Shell,
    b: &mut Vec<Request>,
    import: &mut Shell,
    c: &mut Vec<Request>,
)
    requires
        call_ensures(Shell::toggle_outbox, (outbox, a), ()),
        call_ensures(Shell::toggle_drafts, (drafts, b), ()),
        call_ensures(Shell::toggle_import, (import, c), ()),
    ensures
        final(outbox).panels.show_outbox == !old(outbox).panels.show_outbox,
        final(outbox).panels.show_outbox ==> final(a)@ == old(a)@.push(Request::Outbox),
        !final(outbox).panels.show_outbox ==> final(a)@ == old(a)@,
        final(outbox).panels.outbox == old(outbox).panels.outbox,
        final(outbox).panels.show_drafts == old(outbox).panels.show_drafts,
        final(drafts).panels.show_drafts == !old(drafts).panels.show_drafts,
        final(drafts).panels.show_drafts ==> final(b)@ == old(b)@.push(Request::Drafts),
        !final(drafts).panels.show_drafts ==> final(b)@ == old(b)@,
        final(drafts).writing == old(drafts).writing,
        final(drafts).panels.show_outbox == old(drafts).panels.show_outbox,
        final(import).panels.show_import == !old(import).panels.show_import,
        final(import).panels.show_import ==> final(c)@ == old(c)@ + seq![
            Request::Sources,
            Request::Jobs,
        ],
        !final(import).panels.show_import ==> final(c)@ == old(c)@,
{
}

/// A profile is imported by its rank, the index is built, and the tasks are looked at.
pub proof fn a_task_is_started_and_looked_at(
    shell: &Shell,
    source: usize,
    imported: &mut Vec<Request>,
    indexed: &mut Vec<Request>,
)
    requires
        call_ensures(Shell::start_import, (shell, source, imported), ()),
        call_ensures(Shell::start_index, (shell, indexed), ()),
    ensures
        final(imported)@ == old(imported)@ + seq![Request::StartImport { source }, Request::Jobs],
        final(indexed)@ == old(indexed)@ + seq![Request::StartIndex, Request::Jobs],
{
}

/// What was clicked on the settings page is asked for: of the form that was filled, of the account
/// that was chosen, and nothing where nothing was.
pub proof fn what_was_clicked_in_the_settings_is_asked_for(
    shell: &mut Shell,
    page: settings::Page,
    outcome: settings::Outcome,
    open: bool,
    out: &mut Vec<Request>,
)
    requires
        call_ensures(Shell::settle_settings, (shell, page, outcome, open, out), ()),
    ensures
        match outcome {
            settings::Outcome::Idle => final(out)@ == old(out)@,
            settings::Outcome::Declare(form) => final(out)@ == old(out)@.push(
                Request::DeclareAccount(form),
            ),
            settings::Outcome::Submission(form) => final(out)@ == old(out)@.push(
                Request::SetSubmission(form),
            ),
            settings::Outcome::Forget(id) => final(out)@ == old(out)@.push(
                Request::ForgetAccount { id },
            ),
            settings::Outcome::Consent(form) => final(out)@ == old(out)@.push(
                Request::Consent(form),
            ),
            settings::Outcome::Sync(account) => final(out)@ == old(out)@ + seq![
                Request::StartSync { account },
                Request::Jobs,
            ] && final(shell).panels.show_import,
        },
        open ==> final(shell).panels.settings == Some(page),
        !open ==> final(shell).panels.settings is None,
        final(shell).writing == old(shell).writing,
        final(shell).list == old(shell).list,
{
}

/// The tasks are asked for while they are watched, and left alone a while after each time.
pub proof fn the_tasks_are_watched(
    shell: &mut Shell,
    now: u64,
    out: &mut Vec<Request>,
    again: bool,
    i: int,
)
    requires
        call_ensures(Shell::poll_jobs, (shell, now, out), again),
        0 <= i < old(shell).panels.jobs@.len(),
        old(shell).panels.jobs@[i].state@ == "running"@ || old(shell).panels.jobs@[i].state@
            == "queued"@,
    ensures
        again,
        old(shell).panels.jobs_polled is None ==> final(out)@ == old(out)@.push(Request::Jobs)
            && final(shell).panels.jobs_polled == Some(now),
        old(shell).panels.jobs_polled matches Some(last) && now - last >= 500 ==> final(out)@
            == old(out)@.push(Request::Jobs) && final(shell).panels.jobs_polled == Some(now),
        old(shell).panels.jobs_polled matches Some(last) && now - last < 500 ==> final(out)@
            == old(out)@ && *final(shell) == *old(shell),
        final(shell).panels.jobs == old(shell).panels.jobs,
{
    assert(actions::is_active(old(shell).panels.jobs@[i]));
}

/// The tasks are left alone where none is at work and nobody looks at them.
pub proof fn tasks_that_are_over_are_left_alone(
    shell: &mut Shell,
    now: u64,
    out: &mut Vec<Request>,
    again: bool,
)
    requires
        call_ensures(Shell::poll_jobs, (shell, now, out), again),
        !old(shell).panels.show_import,
        forall|i: int|
            0 <= i < old(shell).panels.jobs@.len() ==> (#[trigger] old(shell).panels.jobs@[i]).state@
                != "running"@ && old(shell).panels.jobs@[i].state@ != "queued"@,
    ensures
        !again,
        *final(shell) == *old(shell),
        final(out)@ == old(out)@,
{
}

} // verus!
