//! The first screen, and what the threads tell of the service: what was on the screen comes back,
//! and what the service said is told as it said it.
use crate::bench::Bench;
use crate::cache;
use crate::cache::Snapshot;
use crate::dto::{Attached, Folder, Page};
use crate::envelope;
use crate::envelope::Outcome;
use crate::protocol::{Answer, Decoded, Reply};
use crate::quote;
use crate::shell::Shell;
use crate::text;
use crate::worker;
use crate::worker::{Ask, Heard, Screen, StageStop, Step, Subscription};
use vstd::prelude::*;
use vstd::string::*;

verus! {

// ---------------------------------------------------------------------------------------------
// The cache
// ---------------------------------------------------------------------------------------------

/// What was on the screen when the cache was written is on the first screen of the next start: the
/// same folders, the same one open, and its rows from the first, all of them up to the bound.
pub proof fn what_was_shown_is_shown_again(
    shell: &mut Shell,
    now: u64,
    written: Snapshot,
    read: Option<Snapshot>,
    bench: Bench,
    host: Option<String>,
    again: Shell,
)
    requires
        call_ensures(Shell::save_cache, (shell, now), ()),
        old(shell).cache.pending is None,
        final(shell).cache.pending == Some(written),
        call_ensures(Snapshot::usable, (written, old(shell).protocol), read),
        call_ensures(Shell::new, (old(shell).protocol, bench, host, read), again),
    ensures
        old(shell).list.folders@.len() > 0,
        again.list.folders@ == old(shell).list.folders@,
        again.list.current == old(shell).list.current,
        old(shell).list.rows@.len() <= 500 ==> again.list.rows@ == old(shell).list.rows@,
        old(shell).list.rows@.len() > 500 ==> again.list.rows@ == old(shell).list.rows@.take(500),
        again.protocol == old(shell).protocol,
        again.reader.message is None,
        again.list.results is None,
        again.writing.compose is None,
{
}

/// What another version of the contract wrote is not shown: the start is then blank.
pub proof fn what_another_version_wrote_is_not_shown(
    written: Snapshot,
    protocol: u32,
    read: Option<Snapshot>,
    bench: Bench,
    host: Option<String>,
    again: Shell,
)
    requires
        call_ensures(Snapshot::usable, (written, protocol), read),
        call_ensures(Shell::new, (protocol, bench, host, read), again),
        written.protocol != protocol,
    ensures
        again.list.folders@.len() == 0,
        again.list.current is None,
        again.list.rows@.len() == 0,
{
}

/// Nothing is written where no cache is kept, nor once it was switched off, nor of a mailbox without
/// a folder; and keeping it changes nothing else.
pub proof fn no_cache_is_written_unasked(shell: &mut Shell, now: u64)
    requires
        call_ensures(Shell::save_cache, (shell, now), ()),
    ensures
        old(shell).cache.host is None || old(shell).cache.disabled
            || old(shell).list.folders@.len() == 0 ==> final(shell).cache == old(shell).cache,
        final(shell).list == old(shell).list,
        final(shell).reader == old(shell).reader,
        final(shell).writing == old(shell).writing,
{
}

/// Two usual hosts have two files, and none of them lies outside of the directory of the cache.
pub proof fn each_host_has_a_file_of_its_own(a: &str, b: &str, first: String, second: String)
    requires
        call_ensures(cache::cache_file, (a,), first),
        call_ensures(cache::cache_file, (b,), second),
    ensures
        !first@.contains('/'),
        !first@.contains('\\'),
        a@ == b@ ==> first@ == second@,
        a@ != b@ && cache::is_usual(a@) && cache::is_usual(b@) ==> first@ != second@,
{
    cache::a_host_never_escapes_its_directory(a@);
    if a@ != b@ && cache::is_usual(a@) && cache::is_usual(b@) {
        cache::two_hosts_have_two_files(a@, b@);
    }
}

// ---------------------------------------------------------------------------------------------
// The first screen
// ---------------------------------------------------------------------------------------------

/// The first screen is that of the first inbox, or of the first folder where there is no inbox, and
/// it is handed on as it came: the folders, the folder whose page was asked for, and that page.
pub proof fn the_first_screen_is_that_of_the_inbox(
    list: Vec<Folder>,
    screen: Screen,
    page: Page,
    reply: Reply,
    k: int,
)
    requires
        call_ensures(worker::screen_of, (Answer::Done(Decoded::Folders(list)),), screen),
        0 <= k < list@.len(),
        forall|j: int| 0 <= j < k ==> (#[trigger] list@[j]).kind@ != "inbox"@,
        list@[k].kind@ == "inbox"@ || (k == 0 && forall|j: int|
            0 <= j < list@.len() ==> (#[trigger] list@[j]).kind@ != "inbox"@),
        screen matches Screen::Page { folders, folder } ==> call_ensures(
            worker::bootstrap,
            (folders, folder, Answer::Done(Decoded::Page(page))),
            reply,
        ),
    ensures
        screen matches Screen::Page { folders, folder } && folders == list && folder
            == list@[k].id,
        reply == (Reply::Bootstrap { folders: list, folder: list@[k].id, page }),
{
    assert forall|j: int| 0 <= j < k implies !#[trigger] worker::is_inbox(list@[j]) by {
        assert(list@[j].kind@ != "inbox"@);
    }
    if list@[k].kind@ == "inbox"@ {
        assert(worker::is_inbox(list@[k]));
    } else if exists|j: int| 0 <= j < list@.len() && #[trigger] worker::is_inbox(list@[j]) {
        let j = choose|j: int| 0 <= j < list@.len() && #[trigger] worker::is_inbox(list@[j]);
        assert(list@[j].kind@ != "inbox"@);
    }
    assert(worker::opens(list@, k));
    let i = choose|i: int| worker::opens(list@, i);
    worker::one_folder_opens_first(list@, i, k);
}

/// An outage and a refusal of the first screen are told apart, each in the words of the service.
pub proof fn the_first_screen_tells_a_refusal_from_an_outage(
    words: String,
    folders: Vec<Folder>,
    folder: i64,
    down: Screen,
    refused: Screen,
    later_down: Reply,
    later_refused: Reply,
)
    requires
        call_ensures(worker::screen_of, (Answer::Down(words),), down),
        call_ensures(worker::screen_of, (Answer::Refused(words),), refused),
        call_ensures(worker::bootstrap, (folders, folder, Answer::Down(words)), later_down),
        call_ensures(worker::bootstrap, (folders, folder, Answer::Refused(words)), later_refused),
    ensures
        down matches Screen::Reply(Reply::Failed { what: _, message, transport }) && message@
            == words@ && transport,
        refused matches Screen::Reply(Reply::Failed { what: _, message, transport }) && message@
            == words@ && !transport,
        later_down matches Reply::Failed { what: _, message, transport } && message@ == words@
            && transport,
        later_refused matches Reply::Failed { what: _, message, transport } && message@ == words@
            && !transport,
{
}

// ---------------------------------------------------------------------------------------------
// The transport and the subscription
// ---------------------------------------------------------------------------------------------

/// The return of the transport is announced after a failure of the transport, and at no other time;
/// a refusal is no such failure.
pub proof fn a_return_is_announced_after_an_outage(
    down: bool,
    first: &Reply,
    then: &Reply,
    before: (bool, bool),
    after: (bool, bool),
)
    requires
        call_ensures(worker::announce, (down, first), before),
        call_ensures(worker::announce, (before.0, then), after),
    ensures
        after.1 <==> (first matches Reply::Failed { what: _, message: _, transport } && *transport)
            && !(then matches Reply::Failed { what: _, message: _, transport } && *transport),
{
}

/// An outage is told once, in its words, however long it lasts.
pub proof fn an_outage_is_told_once(
    it: &mut Subscription,
    later: &mut Subscription,
    first: String,
    again: String,
    step: Step,
    next: Step,
)
    requires
        call_ensures(Subscription::hear, (it, Heard::Down(first)), step),
        *old(later) == *final(it),
        call_ensures(Subscription::hear, (later, Heard::Down(again)), next),
        !old(it).down,
    ensures
        step.replies@.len() == 1,
        step.replies@[0] matches Reply::Failed { what: _, message, transport } && message@ == first@
            && transport,
        next.replies@.len() == 0,
        step.rest && next.rest,
        final(later).known is None,
        final(later).down,
{
    assert(worker::shows(
        step.replies@[0],
        worker::step_of(old(it).state(), Heard::Down(first)).1[0],
    ));
}

/// A store that has moved is told as soon as the service answers, after the return of the transport
/// where it was down; and the next question waits on the revision that came.
pub proof fn a_store_that_moved_is_told(
    it: &mut Subscription,
    revision: String,
    step: Step,
    ask: Ask,
)
    requires
        old(it).known is Some,
        call_ensures(
            Subscription::hear,
            (it, (Heard::Change { changed: true, revision })),
            step,
        ),
        call_ensures(Subscription::next, (final(it),), ask),
    ensures
        step.replies@.len() > 0,
        step.replies@[step.replies@.len() - 1] == Reply::Changed,
        old(it).down ==> step.replies@.len() == 2 && step.replies@[0] == Reply::Online,
        !old(it).down ==> step.replies@.len() == 1,
        !step.rest,
        ask matches Ask::Wait { revision: awaited, timeout_ms: _ } && awaited@ == revision@,
{
    let signs = worker::step_of(
        old(it).state(),
        (Heard::Change { changed: true, revision }),
    ).1;
    assert(worker::shows(step.replies@[0], signs[0]));
    assert(worker::shows(step.replies@[step.replies@.len() - 1], signs[signs.len() - 1]));
}

/// The first revision is noted in silence: it is what is waited on next, an outage is still one until
/// the store answers, and a revision that is refused is asked for again after a rest.
pub proof fn the_first_revision_is_noted_in_silence(
    it: &mut Subscription,
    revision: String,
    step: Step,
    ask: Ask,
    refused: &mut Subscription,
    rested: Step,
    again: Ask,
)
    requires
        old(it).known is None,
        call_ensures(Subscription::hear, (it, Heard::Revision(revision)), step),
        call_ensures(Subscription::next, (final(it),), ask),
        call_ensures(Subscription::hear, (refused, Heard::Refused), rested),
        call_ensures(Subscription::next, (final(refused),), again),
    ensures
        step.replies@.len() == 0,
        !step.rest,
        final(it).down == old(it).down,
        ask matches Ask::Wait { revision: awaited, timeout_ms: _ } && awaited@ == revision@,
        rested.replies@.len() == 0,
        rested.rest,
        final(refused).down == old(refused).down,
        again is Revision,
{
    assert(final(it).state() == worker::step_of(old(it).state(), Heard::Revision(revision)).0);
    assert(final(refused).state() == worker::step_of(old(refused).state(), Heard::Refused).0);
}

/// A store that has not moved is not told to have, and the same revision is waited on again.
pub proof fn a_store_that_stayed_is_waited_on_again(
    it: &mut Subscription,
    revision: String,
    step: Step,
    before: Ask,
    after: Ask,
)
    requires
        call_ensures(Subscription::next, (old(it),), before),
        before is Wait,
        call_ensures(
            Subscription::hear,
            (it, (Heard::Change { changed: false, revision })),
            step,
        ),
        call_ensures(Subscription::next, (final(it),), after),
    ensures
        !step.replies@.contains(Reply::Changed),
        step.replies@.len() <= 1,
        after matches Ask::Wait { revision: then, timeout_ms: _ } && (before matches Ask::Wait {
            revision: first,
            timeout_ms: _,
        } && then@ == first@),
{
    let signs = worker::step_of(
        old(it).state(),
        (Heard::Change { changed: false, revision }),
    ).1;
    if step.replies@.len() > 0 {
        assert(worker::shows(step.replies@[0], signs[0]));
    }
}

/// The revision is asked for first, and the one that comes is waited on.
pub proof fn the_revision_that_came_is_waited_on(
    fresh: Subscription,
    it: &mut Subscription,
    revision: String,
    step: Step,
    first: Ask,
    then: Ask,
)
    requires
        call_ensures(Subscription::new, (), fresh),
        *old(it) == fresh,
        call_ensures(Subscription::next, (&fresh,), first),
        call_ensures(Subscription::hear, (it, Heard::Revision(revision)), step),
        call_ensures(Subscription::next, (final(it),), then),
    ensures
        first is Revision,
        step.replies@.len() == 0,
        !step.rest,
        then matches Ask::Wait { revision: awaited, timeout_ms: _ } && awaited@ == revision@,
{
}

// ---------------------------------------------------------------------------------------------
// An answer
// ---------------------------------------------------------------------------------------------

/// An answer with an error is a refusal, whatever else it holds; one without is its result; and one
/// that cannot be read is neither.
pub proof fn an_answer_is_a_result_or_a_refusal(
    parsed: Result<serde_json::Value, serde_json::Error>,
    outcome: Outcome,
)
    requires
        call_ensures(envelope::outcome_of, (parsed,), outcome),
    ensures
        parsed is Err <==> outcome is Down,
        parsed matches Ok(value) ==> (outcome is Refused
            <==> envelope::json_members(value).dom().contains("error"@)),
        outcome matches Outcome::Done(Some(found)) ==> (parsed matches Ok(value)
            && envelope::json_members(value).dom().contains("result"@)
            && envelope::json_members(value)["result"@] == found),
        outcome matches Outcome::Done(None) ==> (parsed matches Ok(value)
            && !envelope::json_members(value).dom().contains("result"@)),
{
}

/// A refusal is told in the words of the service.
pub proof fn a_refusal_is_told_in_its_words(
    value: serde_json::Value,
    error: serde_json::Value,
    message: serde_json::Value,
    words: Seq<char>,
    outcome: Outcome,
)
    requires
        call_ensures(envelope::outcome_of, (Ok(value),), outcome),
        envelope::json_members(value).dom().contains("error"@),
        envelope::json_members(value)["error"@] == error,
        envelope::json_members(error).dom().contains("message"@),
        envelope::json_members(error)["message"@] == message,
        envelope::json_text(message) == Some(words),
    ensures
        outcome matches Outcome::Refused(said) && said@ == words,
{
}

// ---------------------------------------------------------------------------------------------
// A file
// ---------------------------------------------------------------------------------------------

/// A file is attached under its own name, without the directories that it lies in, and with the
/// bytes that were put in the store.
pub proof fn a_file_is_attached_under_its_name(
    directory: Seq<char>,
    name: Seq<char>,
    path: &str,
    blob: String,
    size: u64,
    it: Attached,
)
    requires
        call_ensures(worker::attached, (path, blob, size), it),
        path@ == directory + "/"@ + name,
        worker::plain_path(path@),
        name.len() > 0,
        !name.contains('/'),
        name != "."@,
        name != ".."@,
    ensures
        it.filename@ == name,
        it.blob@ == blob@,
        it.size == size,
{
    reveal_strlit("/");
    let above = directory + "/"@;
    assert(above.drop_last() == directory);
    assert(text::split(above, '/').last() == Seq::<char>::empty());
    quote::lemma_split_pieces(above, '/');
    quote::lemma_split_append(above, name, '/');
    let parts = text::split(path@, '/');
    assert(parts.last() == Seq::<char>::empty() + name);
    assert(parts.last() == name);
    assert(worker::last_part(parts) == Some(name));
}

/// Why a file was not staged is told with its path and in the words of the failure, and a service on
/// another machine stages none.
pub proof fn a_file_that_was_not_staged_is_named(
    path: &str,
    stop: StageStop,
    why: &str,
    words: String,
    here: Option<&'static str>,
    elsewhere: Option<&'static str>,
)
    requires
        call_ensures(worker::stage_failed, (path, stop, why), words),
        call_ensures(worker::stage_refusal, (false,), here),
        call_ensures(worker::stage_refusal, (true,), elsewhere),
    ensures
        text::occurs(path@, words@),
        text::occurs(why@, words@),
        here is None,
        elsewhere is Some,
{
    let at: int = match stop {
        StageStop::Open => 0int,
        StageStop::Size => "taille de "@.len() as int,
        StageStop::Store => "mise au magasin de "@.len() as int,
    };
    assert(words@.subrange(at, at + path@.len()) == path@);
    let end: int = words@.len() - why@.len();
    assert(words@.subrange(end, end + why@.len()) == why@);
}

} // verus!
