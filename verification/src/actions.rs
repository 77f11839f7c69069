//! What the user's gestures make of the interface.
use crate::compose;
use crate::compose::Compose;
use crate::dto::{Job, Row};
use crate::protocol::{Decision, Request, SourceOf};
use crate::quote;
use crate::settings;
use crate::shell;
use crate::shell::{
    Kept, List, Notices, Panels, Reader, Shell, SourceView, BODY_STEP, JOBS_POLL, RESULTS,
};
use crate::signature;
use crate::signature::Document;
use crate::text;
use vstd::prelude::*;
use vstd::string::*;

verus! {

broadcast use vstd::std_specs::hash::group_hash_axioms;

// ---------------------------------------------------------------------------------------------
// What is asked for
// ---------------------------------------------------------------------------------------------

/// A request, as far as it is pinned down.
pub enum Wish {
    /// This request.
    Exactly(Request),
    /// A search for these words.
    Search(Seq<char>),
    /// The completion of this beginning.
    Complete(Seq<char>, u64),
    /// The sending of this message.
    Send(Compose),
    /// The keeping of this message as a draft.
    Save(Compose),
    /// The keeping of this signature.
    Sign(i64, Document),
}

/// Whether a request is what was wished for.
pub open spec fn grants(request: Request, wish: Wish) -> bool {
    match wish {
        Wish::Exactly(it) => request == it,
        Wish::Search(words) => request matches Request::Search { query, limit } && query@ == words
            && limit == RESULTS,
        Wish::Complete(beginning, number) => request matches Request::Complete { prefix, token }
            && prefix@ == beginning && token == number,
        Wish::Send(message) => request matches Request::Send(it) && compose::same_compose(
            *it,
            message,
        ),
        Wish::Save(message) => request matches Request::SaveDraft(it) && compose::same_compose(
            *it,
            message,
        ),
        Wish::Sign(number, document) => request matches Request::SetSignature {
            account,
            signature,
        } && account == number && (signature matches Some(it) && signature::same_document(
            it,
            document,
        )),
    }
}

/// Whether a list of requests was lengthened by what was wished for, in order.
pub open spec fn asked(before: Seq<Request>, after: Seq<Request>, wishes: Seq<Wish>) -> bool {
    &&& after.len() == before.len() + wishes.len()
    &&& after.take(before.len() as int) == before
    &&& forall|i: int|
        0 <= i < wishes.len() ==> grants(#[trigger] after[before.len() + i], wishes[i])
}

/// What is asked for in two steps is asked for in one.
pub proof fn lemma_asked_more(
    first: Seq<Request>,
    second: Seq<Request>,
    third: Seq<Request>,
    a: Seq<Wish>,
    b: Seq<Wish>,
)
    requires
        asked(first, second, a),
        asked(second, third, b),
    ensures
        asked(first, third, a + b),
{
    assert(third.take(first.len() as int) == first) by {
        assert(third.take(first.len() as int) == second.take(first.len() as int)) by {
            assert(second == third.take(second.len() as int));
        }
    }
    assert forall|i: int| 0 <= i < (a + b).len() implies grants(
        #[trigger] third[first.len() + i],
        (a + b)[i],
    ) by {
        if i < a.len() {
            assert(third.take(second.len() as int)[first.len() + i] == second[first.len() + i]);
        } else {
            assert(grants(third[second.len() + (i - a.len())], b[i - a.len()]));
        }
    }
}

// ---------------------------------------------------------------------------------------------
// The reader
// ---------------------------------------------------------------------------------------------

/// The interface while a message is being opened.
pub open spec fn opening(pre: Shell, id: i64, with_images: bool) -> Shell {
    Shell {
        list: List { selected: Some(id), ..pre.list },
        reader: Reader { opening: true, open_error: None, images_shown: with_images, ..pre.reader },
        ..pre
    }
}

/// What is asked for when a message is opened: the message, and that it be marked as read in the
/// folder that is looked at.
pub open spec fn opening_asks(pre: Shell, id: i64, with_images: bool) -> Seq<Request> {
    let open = seq![Request::Open { id, remote_images: with_images }];
    match pre.list.current {
        Some(folder) => open.push(Request::MarkRead { id, folder }),
        None => open,
    }
}

/// What showing the source of the open message changes.
pub open spec fn source_shown(pre: Shell, post: Shell) -> bool {
    match pre.reader.message {
        Some(message) => {
            &&& post == (Shell {
                panels: Panels { source: post.panels.source, ..pre.panels },
                ..pre
            })
            &&& post.panels.source matches Some(view)
            &&& view.of == SourceOf::Message(message.row.id)
            &&& view.title@ == quote::elided(message.row.subject@, 48)
            &&& view.found is None
            &&& view.error is None
        },
        None => post == pre,
    }
}

/// What showing the source of the open message asks for.
pub open spec fn source_asks(pre: Shell) -> Seq<Request> {
    match pre.reader.message {
        Some(message) => seq![Request::Source { of: SourceOf::Message(message.row.id) }],
        None => seq![],
    }
}

impl Shell {
    /// Opens a message.
    pub fn open_message(&mut self, id: i64, with_images: bool, out: &mut Vec<Request>)
        ensures
            *final(self) == opening(*old(self), id, with_images),
            final(out)@ == old(out)@ + opening_asks(*old(self), id, with_images),
    {
        self.list.selected = Some(id);
        self.reader.opening = true;
        self.reader.open_error = None;
        self.reader.images_shown = with_images;
        out.push(Request::Open { id, remote_images: with_images });
        match self.list.current {
            Some(folder) => {
                out.push(Request::MarkRead { id, folder });
            },
            None => {},
        }
    }

    /// Draws more of the body.
    pub fn show_more(&mut self)
        ensures
            *final(self) == (Shell {
                reader: Reader {
                    body_shown: if old(self).reader.body_shown + BODY_STEP <= usize::MAX {
                        (old(self).reader.body_shown + BODY_STEP) as usize
                    } else {
                        usize::MAX
                    },
                    ..old(self).reader
                },
                ..*old(self)
            }),
    {
        if self.reader.body_shown <= usize::MAX - BODY_STEP {
            self.reader.body_shown = self.reader.body_shown + BODY_STEP;
        } else {
            self.reader.body_shown = usize::MAX;
        }
    }

    /// Opens the window of a source, and asks for its bytes.
    pub fn open_source(&mut self, of: SourceOf, title: String, out: &mut Vec<Request>)
        ensures
            *final(self) == (Shell {
                panels: Panels {
                    source: Some(SourceView { of, title, found: None, error: None }),
                    ..old(self).panels
                },
                ..*old(self)
            }),
            final(out)@ == old(out)@.push(Request::Source { of }),
    {
        self.panels.source = Some(SourceView { of, title, found: None, error: None });
        out.push(Request::Source { of });
    }

    /// Opens the source of the message that is read, under its subject.
    pub fn show_source(&mut self, out: &mut Vec<Request>)
        ensures
            source_shown(*old(self), *final(self)),
            final(out)@ == old(out)@ + source_asks(*old(self)),
    {
        let target = match &self.reader.message {
            Some(message) => Some((message.row.id, quote::elide(message.row.subject.as_str(), 48))),
            None => None,
        };
        match target {
            Some((id, title)) => {
                self.open_source(SourceOf::Message(id), title, out);
                assert(out@ == old(out)@ + source_asks(*old(self)));
            },
            None => {
                assert(out@ == old(out)@ + source_asks(*old(self)));
            },
        }
    }

    /// Opens the bytes of a line of the queue.
    pub fn show_outgoing(&mut self, id: i64, out: &mut Vec<Request>)
        ensures
            *final(self) == (Shell {
                panels: Panels { source: final(self).panels.source, ..old(self).panels },
                ..*old(self)
            }),
            final(self).panels.source matches Some(view) && view.of == SourceOf::Outgoing(id)
                && view.title@ == "envoi #"@ + text::signed_dec(id as int) && view.found is None
                && view.error is None,
            final(out)@ == old(out)@.push(Request::Source { of: SourceOf::Outgoing(id) }),
    {
        let mut title = "envoi #".to_owned();
        title.append(text::decimal_signed(id).as_str());
        self.open_source(SourceOf::Outgoing(id), title, out);
    }

    /// Closes the window of a source.
    pub fn close_source(&mut self)
        ensures
            *final(self) == (Shell {
                panels: Panels { source: None, ..old(self).panels },
                ..*old(self)
            }),
    {
        self.panels.source = None;
    }
}

// ---------------------------------------------------------------------------------------------
// The search
// ---------------------------------------------------------------------------------------------

/// The interface once the search that is typed was run. Without a word, the folder is shown again.
pub open spec fn search_run(pre: Shell) -> Shell {
    if text::trimmed(pre.list.query@).len() == 0 {
        Shell { list: List { results: None, ..pre.list }, ..pre }
    } else {
        Shell { list: List { searching: true, ..pre.list }, ..pre }
    }
}

/// What is asked for when the search that is typed is run.
pub open spec fn search_asks(pre: Shell) -> Seq<Wish> {
    let words = text::trimmed(pre.list.query@);
    if words.len() == 0 {
        seq![]
    } else {
        seq![Wish::Search(words)]
    }
}

/// Whether the search was put away.
pub open spec fn search_cleared(pre: List, post: List) -> bool {
    post == (List { results: None, query: post.query, ..pre }) && post.query@ == ""@
}

impl Shell {
    /// Runs the search that is typed.
    pub fn run_search(&mut self, out: &mut Vec<Request>)
        ensures
            *final(self) == search_run(*old(self)),
            asked(old(out)@, final(out)@, search_asks(*old(self))),
    {
        let query = text::trim(self.list.query.as_str());
        if query.as_str().unicode_len() == 0 {
            self.list.results = None;
            assert(out@.take(old(out)@.len() as int) == old(out)@);
            return;
        }
        self.list.searching = true;
        out.push(Request::Search { query, limit: RESULTS });
        assert(out@.take(old(out)@.len() as int) == old(out)@);
    }

    /// Puts the search away.
    pub fn clear_search(&mut self)
        ensures
            *final(self) == (Shell { list: final(self).list, ..*old(self) }),
            search_cleared(old(self).list, final(self).list),
    {
        self.list.results = None;
        self.list.query = "".to_owned();
    }
}

// ---------------------------------------------------------------------------------------------
// The keyboard
// ---------------------------------------------------------------------------------------------

/// The keys that were pressed since the last frame.
#[derive(Debug, Clone, Copy, PartialEq, Eq, Structural)]
pub struct Keys {
    pub down: bool,
    pub up: bool,
    pub page_down: bool,
    pub page_up: bool,
    pub open: bool,
    pub search: bool,
    pub escape: bool,
}

/// How far the keys move the selection: a page is twenty rows.
pub open spec fn moves(keys: Keys) -> int {
    let one = |pressed: bool|
        if pressed {
            1int
        } else {
            0int
        };
    one(keys.down) - one(keys.up) + 20 * (one(keys.page_down) - one(keys.page_up))
}

/// Whether a row is the first of that number.
pub open spec fn is_row(rows: Seq<Row>, i: int, id: i64) -> bool {
    &&& 0 <= i < rows.len()
    &&& rows[i].id == id
    &&& forall|j: int| 0 <= j < i ==> (#[trigger] rows[j]).id != id
}

/// Where the selection stands in the rows that are shown, if it is among them.
pub open spec fn selected_at(list: List) -> Option<int> {
    match list.selected {
        Some(id) if exists|i: int| is_row(list.shown(), i, id) => Some(
            choose|i: int| is_row(list.shown(), i, id),
        ),
        _ => None,
    }
}

/// The row that the keys lead to: never before the first one, and the first one where nothing
/// that is shown was selected.
pub open spec fn aimed_at(list: List, delta: int) -> int {
    match selected_at(list) {
        Some(at) => if at + delta < 0 {
            0
        } else {
            at + delta
        },
        None => 0,
    }
}

/// The interface once the selection has moved: the row that it leads to is opened, and beyond the
/// rows that are loaded the next page is asked for.
pub open spec fn selection_moved(pre: Shell, delta: int) -> (Shell, Seq<Request>) {
    let next = aimed_at(pre.list, delta);
    if delta == 0 {
        (pre, seq![])
    } else if next < pre.list.shown().len() {
        let id = pre.list.shown()[next].id;
        (opening(pre, id, false), opening_asks(pre, id, false))
    } else {
        (
            Shell { list: shell::with_page_asked(pre.list), ..pre },
            shell::page_asked(pre.list),
        )
    }
}

/// The interface once the selected message was opened again.
pub open spec fn reopened(pre: Shell, open: bool) -> (Shell, Seq<Request>) {
    match pre.list.selected {
        Some(id) if open => (
            opening(pre, id, pre.reader.images_shown),
            opening_asks(pre, id, pre.reader.images_shown),
        ),
        _ => (pre, seq![]),
    }
}

/// Whether the list is what the keys for the search make of it.
pub open spec fn search_keyed(pre: List, keys: Keys, post: List) -> bool {
    let focused = List { focus_search: pre.focus_search || keys.search, ..pre };
    if keys.escape && pre.results is Some {
        search_cleared(focused, post)
    } else {
        post == focused
    }
}

/// Whether the interface is what the keys make of it: the search first, then the selection, then
/// the opening.
pub open spec fn keyed(pre: Shell, keys: Keys, mid: List, post: Shell, more: Seq<Request>) -> bool {
    let (moved, first) = selection_moved(Shell { list: mid, ..pre }, moves(keys));
    let (last, second) = reopened(moved, keys.open);
    search_keyed(pre.list, keys, mid) && post == last && more == first + second
}

impl List {
    /// Where the selection stands in the rows that are shown, if it is among them.
    fn position(&self) -> (r: Option<usize>)
        ensures
            match r {
                Some(i) => selected_at(*self) == Some(i as int),
                None => selected_at(*self) is None,
            },
    {
        match self.selected {
            None => None,
            Some(id) => {
                let rows = self.visible();
                let mut i: usize = 0;
                while i < rows.len()
                    invariant
                        rows@ == self.shown(),
                        self.selected == Some(id),
                        i <= rows.len(),
                        forall|j: int| 0 <= j < i ==> (#[trigger] rows@[j]).id != id,
                    decreases rows.len() - i,
                {
                    if rows[i].id == id {
                        assert(is_row(self.shown(), i as int, id));
                        let ghost k = choose|k: int| is_row(self.shown(), k, id);
                        assert(k == i) by {
                            if k < i {
                                assert(rows@[k].id != id);
                            } else if i < k {
                                assert(rows@[i as int].id != id);
                            }
                        }
                        return Some(i);
                    }
                    i = i + 1;
                }
                None
            },
        }
    }
}

impl Shell {
    fn move_selection(&mut self, keys: Keys, out: &mut Vec<Request>)
        ensures
            *final(self) == selection_moved(*old(self), moves(keys)).0,
            final(out)@ == old(out)@ + selection_moved(*old(self), moves(keys)).1,
    {
        let mut forward: usize = 0;
        let mut back: usize = 0;
        if keys.down {
            forward = forward + 1;
        }
        if keys.page_down {
            forward = forward + 20;
        }
        if keys.up {
            back = back + 1;
        }
        if keys.page_up {
            back = back + 20;
        }
        assert(moves(keys) == forward - back);
        if forward == back {
            return;
        }
        let count: usize = self.list.visible().len();
        let next: usize = match self.list.position() {
            Some(at) => if forward < back {
                let less: usize = back - forward;
                if at >= less {
                    at - less
                } else {
                    0
                }
            } else {
                let more: usize = forward - back;
                if at < usize::MAX - more {
                    at + more
                } else {
                    count
                }
            },
            None => 0,
        };
        if next < count {
            let id: i64 = self.list.visible()[next].id;
            self.open_message(id, false, out);
        } else {
            self.list.request_page(out);
        }
    }

    /// Does what the keys say.
    pub fn keyboard(&mut self, keys: Keys, out: &mut Vec<Request>)
        ensures
            exists|mid: List, more: Seq<Request>| #[trigger]
                keyed(*old(self), keys, mid, *final(self), more) && final(out)@ == old(out)@ + more,
    {
        let ghost before = out@;
        if keys.search {
            self.list.focus_search = true;
        }
        if keys.escape && self.list.results.is_some() {
            self.clear_search();
        }
        let ghost mid = self.list;
        let ghost first = selection_moved(*self, moves(keys)).1;
        self.move_selection(keys, out);
        let ghost second = reopened(*self, keys.open).1;
        if keys.open {
            match self.list.selected {
                Some(id) => {
                    let images = self.reader.images_shown;
                    self.open_message(id, images, out);
                },
                None => {},
            }
        }
        assert(out@ == before + (first + second));
        assert(keyed(*old(self), keys, mid, *self, first + second));
    }
}

// ---------------------------------------------------------------------------------------------
// The panels
// ---------------------------------------------------------------------------------------------

/// Whether a task is still at work.
pub open spec fn is_active(job: Job) -> bool {
    job.state@ == "running"@ || job.state@ == "queued"@
}

/// Whether the tasks are watched: one is at work, or their panel is open.
pub open spec fn watches_jobs(panels: Panels) -> bool {
    panels.show_import || exists|i: int|
        0 <= i < panels.jobs@.len() && #[trigger] is_active(panels.jobs@[i])
}

/// Whether the tasks are to be asked for: they are watched, and were left alone long enough.
pub open spec fn jobs_due(panels: Panels, now: u64) -> bool {
    watches_jobs(panels) && match panels.jobs_polled {
        Some(last) => now - last >= JOBS_POLL,
        None => true,
    }
}

/// What happened to the file of the cache.
pub enum Purge {
    /// It is gone: its path.
    Done(String),
    /// It is still there, and why.
    Failed(String),
}

/// What is said of a purge.
pub open spec fn purge_words(purge: Purge) -> Seq<char> {
    match purge {
        Purge::Done(path) => "cache effacé : "@ + path@
            + ". Plus rien ne sera écrit jusqu'au prochain lancement."@,
        Purge::Failed(why) => "cache non effacé : "@ + why@,
    }
}

impl Shell {
    /// Shows or hides the queue, and reads it when it is shown.
    pub fn toggle_outbox(&mut self, out: &mut Vec<Request>)
        ensures
            *final(self) == (Shell {
                panels: Panels { show_outbox: !old(self).panels.show_outbox, ..old(self).panels },
                ..*old(self)
            }),
            final(out)@ == if old(self).panels.show_outbox {
                old(out)@
            } else {
                old(out)@.push(Request::Outbox)
            },
    {
        self.panels.show_outbox = !self.panels.show_outbox;
        if self.panels.show_outbox {
            out.push(Request::Outbox);
        }
    }

    /// Shows or hides the drafts, and reads them when they are shown.
    pub fn toggle_drafts(&mut self, out: &mut Vec<Request>)
        ensures
            *final(self) == (Shell {
                panels: Panels { show_drafts: !old(self).panels.show_drafts, ..old(self).panels },
                ..*old(self)
            }),
            final(out)@ == if old(self).panels.show_drafts {
                old(out)@
            } else {
                old(out)@.push(Request::Drafts)
            },
    {
        self.panels.show_drafts = !self.panels.show_drafts;
        if self.panels.show_drafts {
            out.push(Request::Drafts);
        }
    }

    /// Shows or hides the import panel, and reads the profiles and the tasks when it is shown.
    pub fn toggle_import(&mut self, out: &mut Vec<Request>)
        ensures
            *final(self) == (Shell {
                panels: Panels { show_import: !old(self).panels.show_import, ..old(self).panels },
                ..*old(self)
            }),
            final(out)@ == if old(self).panels.show_import {
                old(out)@
            } else {
                old(out)@ + seq![Request::Sources, Request::Jobs]
            },
    {
        self.panels.show_import = !self.panels.show_import;
        if self.panels.show_import {
            out.push(Request::Sources);
            out.push(Request::Jobs);
        }
    }

    /// Opens the settings page, or closes it. A page on a remote service knows that it can write
    /// nothing.
    pub fn toggle_settings(&mut self, remote: bool, out: &mut Vec<Request>)
        ensures
            *final(self) == (Shell {
                panels: Panels { settings: final(self).panels.settings, ..old(self).panels },
                ..*old(self)
            }),
            if old(self).panels.settings is Some {
                final(self).panels.settings is None && final(out)@ == old(out)@
            } else {
                &&& final(self).panels.settings matches Some(page)
                &&& page.remote == remote
                &&& page.accounts@.len() == 0
                &&& page.declaring is None
                &&& page.submitting is None
                &&& page.consenting is None
                &&& page.consent_url is None
                &&& page.forgetting is None
                &&& page.message is None
                &&& !page.failed
                &&& final(out)@ == old(out)@.push(Request::AccountsDetail)
            },
    {
        if self.panels.settings.is_some() {
            self.panels.settings = None;
        } else {
            self.panels.settings = Some(settings::Page::opened(remote));
            out.push(Request::AccountsDetail);
        }
    }

    /// Asks that the last message be held back. The button is gone at once, so that it is asked
    /// for once.
    pub fn cancel_sending(&mut self, out: &mut Vec<Request>)
        ensures
            *final(self) == (Shell {
                notices: Notices { cancellable: None, ..old(self).notices },
                ..*old(self)
            }),
            final(out)@ == match old(self).notices.cancellable {
                Some(id) => old(out)@.push(Request::Cancel { id }),
                None => old(out)@,
            },
    {
        match self.notices.cancellable {
            Some(id) => {
                out.push(Request::Cancel { id });
            },
            None => {},
        }
        self.notices.cancellable = None;
    }

    /// Puts the last sentence away, and with it the button that it carries.
    pub fn dismiss_status(&mut self)
        ensures
            *final(self) == (Shell {
                notices: Notices { status: None, cancellable: None, ..old(self).notices },
                ..*old(self)
            }),
    {
        self.notices.status = None;
        self.notices.cancellable = None;
    }

    /// Says what became of a doubtful message, and reads the queue again.
    pub fn decide(&self, id: i64, decision: Decision, out: &mut Vec<Request>)
        ensures
            final(out)@ == old(out)@ + seq![Request::Decide { id, decision }, Request::Outbox],
    {
        out.push(Request::Decide { id, decision });
        out.push(Request::Outbox);
    }

    /// Sends a refused message again, and reads the queue again.
    pub fn retry(&self, id: i64, out: &mut Vec<Request>)
        ensures
            final(out)@ == old(out)@ + seq![Request::Retry { id }, Request::Outbox],
    {
        out.push(Request::Retry { id });
        out.push(Request::Outbox);
    }

    /// Imports a profile.
    pub fn start_import(&self, source: usize, out: &mut Vec<Request>)
        ensures
            final(out)@ == old(out)@ + seq![Request::StartImport { source }, Request::Jobs],
    {
        out.push(Request::StartImport { source });
        out.push(Request::Jobs);
    }

    /// Builds the index again.
    pub fn start_index(&self, out: &mut Vec<Request>)
        ensures
            final(out)@ == old(out)@ + seq![Request::StartIndex, Request::Jobs],
    {
        out.push(Request::StartIndex);
        out.push(Request::Jobs);
    }

    /// Takes note of a purge of the cache: once it is gone, nothing is written to it any more, and
    /// what was about to be is not.
    pub fn purged(&mut self, purge: Purge)
        ensures
            *final(self) == (Shell {
                cache: if purge is Done {
                    Kept { saved: None, disabled: true, pending: None, ..old(self).cache }
                } else {
                    old(self).cache
                },
                notices: Notices { status: final(self).notices.status, ..old(self).notices },
                ..*old(self)
            }),
            shell::reads(final(self).notices.status, purge_words(purge)),
    {
        match purge {
            Purge::Done(path) => {
                self.cache.disabled = true;
                self.cache.saved = None;
                self.cache.pending = None;
                let mut said = "cache effacé : ".to_owned();
                said.append(path.as_str());
                said.append(". Plus rien ne sera écrit jusqu'au prochain lancement.");
                self.notices.status = Some(said);
            },
            Purge::Failed(why) => {
                let mut said = "cache non effacé : ".to_owned();
                said.append(why.as_str());
                self.notices.status = Some(said);
            },
        }
    }

    /// Asks for the tasks where they are due, and says whether to look again.
    pub fn poll_jobs(&mut self, now: u64, out: &mut Vec<Request>) -> (again: bool)
        ensures
            again == watches_jobs(old(self).panels),
            if jobs_due(old(self).panels, now) {
                &&& *final(self) == (Shell {
                    panels: Panels { jobs_polled: Some(now), ..old(self).panels },
                    ..*old(self)
                })
                &&& final(out)@ == old(out)@.push(Request::Jobs)
            } else {
                *final(self) == *old(self) && final(out)@ == old(out)@
            },
    {
        let mut active = false;
        let mut i: usize = 0;
        while i < self.panels.jobs.len()
            invariant
                i <= self.panels.jobs.len(),
                active <==> exists|j: int| 0 <= j < i && #[trigger] is_active(self.panels.jobs@[j]),
            decreases self.panels.jobs.len() - i,
        {
            let state = self.panels.jobs[i].state.as_str();
            if text::same(state, "running") || text::same(state, "queued") {
                assert(is_active(self.panels.jobs@[i as int]));
                active = true;
            }
            i = i + 1;
        }
        if !active && !self.panels.show_import {
            return false;
        }
        let due = match self.panels.jobs_polled {
            Some(last) => now >= last && now - last >= JOBS_POLL,
            None => true,
        };
        if due {
            self.panels.jobs_polled = Some(now);
            out.push(Request::Jobs);
        }
        true
    }
}

/// What is asked for when the settings page was clicked.
pub open spec fn settings_asks(outcome: settings::Outcome) -> Seq<Request> {
    match outcome {
        settings::Outcome::Idle => seq![],
        settings::Outcome::Declare(form) => seq![Request::DeclareAccount(form)],
        settings::Outcome::Submission(form) => seq![Request::SetSubmission(form)],
        settings::Outcome::Forget(id) => seq![Request::ForgetAccount { id }],
        settings::Outcome::Consent(form) => seq![Request::Consent(form)],
        settings::Outcome::Sync(account) => seq![Request::StartSync { account }, Request::Jobs],
    }
}

impl Shell {
    /// Takes the settings page back from its window, with what was clicked on it. A
    /// synchronisation that was started opens the panel of the tasks.
    pub fn settle_settings(
        &mut self,
        page: settings::Page,
        outcome: settings::Outcome,
        open: bool,
        out: &mut Vec<Request>,
    )
        ensures
            *final(self) == (Shell {
                panels: Panels {
                    settings: if open {
                        Some(page)
                    } else {
                        None
                    },
                    show_import: old(self).panels.show_import || outcome is Sync,
                    ..old(self).panels
                },
                ..*old(self)
            }),
            final(out)@ == old(out)@ + settings_asks(outcome),
    {
        match outcome {
            settings::Outcome::Idle => {},
            settings::Outcome::Declare(form) => {
                out.push(Request::DeclareAccount(form));
            },
            settings::Outcome::Submission(form) => {
                out.push(Request::SetSubmission(form));
            },
            settings::Outcome::Forget(id) => {
                out.push(Request::ForgetAccount { id });
            },
            settings::Outcome::Consent(form) => {
                out.push(Request::Consent(form));
            },
            settings::Outcome::Sync(account) => {
                out.push(Request::StartSync { account });
                out.push(Request::Jobs);
                self.panels.show_import = true;
            },
        }
        self.panels.settings = if open {
            Some(page)
        } else {
            None
        };
    }
}

} // verus!
