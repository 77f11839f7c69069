//! The state of the interface, and what the answers of the service make of it.
//!
//! Nothing here draws and nothing here waits: a method changes the state and adds what is to be
//! asked of the service to a list.
use crate::bench;
use crate::bench::{Bench, BenchState, Probe};
use crate::body::Block;
use crate::cache;
use crate::cache::Snapshot;
use crate::compose::Compose;
use crate::dto;
use crate::dto::{
    Account, Draft, Folder, Hello, Job, Message, MessageSource, Outgoing, Page, Row, Source, Suggestion,
};
use crate::protocol::{Request, SourceOf};
use crate::settings;
use crate::signature::{Document, Editor};
use crate::text;
use std::collections::HashMap;
use std::collections::HashSet;
use vstd::prelude::*;
use vstd::string::*;

verus! {

broadcast use vstd::std_specs::hash::group_hash_axioms;

/// The rows of a page.
pub const PAGE: u32 = 100;

/// The rows that a search finds at most.
pub const RESULTS: u32 = 200;

/// How long the background tasks are left alone, in milliseconds.
pub const JOBS_POLL: u64 = 500;

/// The blocks of a body that are drawn at first, and at each wish for more.
pub const BODY_STEP: usize = 400;

/// How long the cache is left alone, in milliseconds.
pub const CACHE_EVERY: u64 = 5000;

/// A field of recipients.
#[derive(Debug, Clone, Copy, PartialEq, Eq, Structural)]
pub enum Field {
    To,
    Cc,
    Bcc,
}

/// The window that shows the source of a message: it keeps what it asked for.
pub struct SourceView {
    pub of: SourceOf,
    /// How it is named, since it was opened.
    pub title: String,
    pub found: Option<MessageSource>,
    pub error: Option<String>,
}

/// The list of messages, and the folders beside it.
pub struct List {
    pub folders: Vec<Folder>,
    pub current: Option<i64>,
    /// The rows of the current folder that have come.
    pub rows: Vec<Row>,
    pub cursor: Option<String>,
    /// No page follows.
    pub exhausted: bool,
    pub loading_page: bool,
    /// The first page is read again, to be laid over the rows.
    pub refreshing_head: bool,
    pub selected: Option<i64>,
    pub query: String,
    /// What a search found, or nothing while a folder is looked at.
    pub results: Option<Vec<Row>>,
    pub searching: bool,
    pub focus_search: bool,
}

/// The message that is read.
pub struct Reader {
    pub message: Option<Message>,
    pub body: Vec<Block>,
    /// How many blocks of the body are drawn.
    pub body_shown: usize,
    pub opening: bool,
    pub open_error: Option<String>,
    pub images_shown: bool,
    /// The thread of the open message.
    pub thread: Vec<Row>,
}

/// What is written: the message, its suggestions, the signatures.
pub struct Writing {
    pub accounts: Vec<Account>,
    /// The message that is being written, while its window is open.
    pub compose: Option<Compose>,
    /// A message is on its way to the queue.
    pub sending: bool,
    pub suggestions: Vec<Suggestion>,
    /// The field that the suggestions are for.
    pub suggesting: Option<Field>,
    /// The token of the last request for suggestions.
    pub suggest_token: u64,
    /// The text that the suggestions were asked for.
    pub suggest_for: String,
    /// The signatures that are known, by account: an account may be known to have none.
    pub signatures: HashMap<i64, Option<Document>>,
    pub editor: Option<Editor>,
    pub drafts: Vec<Draft>,
}

/// The panels and the windows beside the list.
pub struct Panels {
    pub sources: Vec<Source>,
    pub jobs: Vec<Job>,
    /// When the tasks were last asked for, in milliseconds.
    pub jobs_polled: Option<u64>,
    pub show_import: bool,
    pub outbox: Vec<Outgoing>,
    pub show_outbox: bool,
    pub show_drafts: bool,
    pub source: Option<SourceView>,
    pub settings: Option<settings::Page>,
}

/// What the user is told.
pub struct Notices {
    /// The last sentence.
    pub status: Option<String>,
    /// The line of the queue that can still be held back.
    pub cancellable: Option<i64>,
    /// The failure of the transport that lasts.
    pub offline: Option<String>,
}

/// The reading cache of a remote service.
pub struct Kept {
    /// The host of the service: the key of the cache. A local store has none.
    pub host: Option<String>,
    /// When the cache was last written, in milliseconds.
    pub saved: Option<u64>,
    /// The cache was purged: nothing is written until the next start.
    pub disabled: bool,
    /// What is to be written.
    pub pending: Option<Snapshot>,
}

/// A measuring run.
pub struct Trial {
    pub bench: Bench,
    pub state: BenchState,
    pub probe: Probe,
}

/// The state of the interface.
pub struct Shell {
    /// The version of the contract that this interface speaks.
    pub protocol: u32,
    /// What the service says of itself.
    pub hello: Option<Hello>,
    /// Why the interface stops here.
    pub fatal: Option<String>,
    pub list: List,
    pub reader: Reader,
    pub writing: Writing,
    pub panels: Panels,
    pub notices: Notices,
    pub cache: Kept,
    pub trial: Trial,
}

/// Whether an optional text holds these words.
pub open spec fn reads(words: Option<String>, expected: Seq<char>) -> bool {
    words matches Some(w) && w@ == expected
}

/// Whether a list has a row of this number.
pub open spec fn has_row(rows: Seq<Row>, id: i64) -> bool {
    exists|i: int| 0 <= i < rows.len() && (#[trigger] rows[i]).id == id
}

// ---------------------------------------------------------------------------------------------
// The start
// ---------------------------------------------------------------------------------------------

/// What the interface asks for before it has a window, in this order: the rows come first.
pub fn first_requests() -> (r: Vec<Request>)
    ensures
        r@ == seq![
            Request::Bootstrap { limit: PAGE },
            Request::Sources,
            Request::Hello,
            Request::Accounts,
            Request::Outbox,
            Request::Drafts,
        ],
{
    vec![
        Request::Bootstrap { limit: PAGE },
        Request::Sources,
        Request::Hello,
        Request::Accounts,
        Request::Outbox,
        Request::Drafts,
    ]
}

impl List {
    /// Whether nothing is on its way and nothing is selected.
    pub open spec fn is_fresh(self) -> bool {
        &&& self.cursor is None
        &&& !self.exhausted
        &&& !self.loading_page
        &&& !self.refreshing_head
        &&& self.selected is None
        &&& self.query@ == ""@
        &&& self.results is None
        &&& !self.searching
        &&& !self.focus_search
    }
}

impl Reader {
    /// Whether no message is open.
    pub open spec fn is_fresh(self) -> bool {
        &&& self.message is None
        &&& self.body@.len() == 0
        &&& self.body_shown == BODY_STEP
        &&& !self.opening
        &&& self.open_error is None
        &&& !self.images_shown
        &&& self.thread@.len() == 0
    }

    fn new() -> (r: Reader)
        ensures
            r.is_fresh(),
    {
        Reader {
            message: None,
            body: Vec::new(),
            body_shown: BODY_STEP,
            opening: false,
            open_error: None,
            images_shown: false,
            thread: Vec::new(),
        }
    }
}

impl Writing {
    /// Whether nothing is written and nothing is known of the accounts.
    pub open spec fn is_fresh(self) -> bool {
        &&& self.accounts@.len() == 0
        &&& self.compose is None
        &&& !self.sending
        &&& self.suggestions@.len() == 0
        &&& self.suggesting is None
        &&& self.suggest_token == 0
        &&& self.suggest_for@ == ""@
        &&& self.signatures@ == Map::<i64, Option<Document>>::empty()
        &&& self.editor is None
        &&& self.drafts@.len() == 0
    }

    fn new() -> (r: Writing)
        ensures
            r.is_fresh(),
    {
        Writing {
            accounts: Vec::new(),
            compose: None,
            sending: false,
            suggestions: Vec::new(),
            suggesting: None,
            suggest_token: 0,
            suggest_for: "".to_owned(),
            signatures: HashMap::new(),
            editor: None,
            drafts: Vec::new(),
        }
    }
}

impl Panels {
    /// Whether every panel is closed and empty.
    pub open spec fn is_fresh(self) -> bool {
        &&& self.sources@.len() == 0
        &&& self.jobs@.len() == 0
        &&& self.jobs_polled is None
        &&& !self.show_import
        &&& self.outbox@.len() == 0
        &&& !self.show_outbox
        &&& !self.show_drafts
        &&& self.source is None
        &&& self.settings is None
    }

    fn new() -> (r: Panels)
        ensures
            r.is_fresh(),
    {
        Panels {
            sources: Vec::new(),
            jobs: Vec::new(),
            jobs_polled: None,
            show_import: false,
            outbox: Vec::new(),
            show_outbox: false,
            show_drafts: false,
            source: None,
            settings: None,
        }
    }
}

impl Shell {
    /// Whether nothing was heard and nothing is open.
    pub open spec fn is_fresh(self) -> bool {
        &&& self.hello is None
        &&& self.fatal is None
        &&& self.list.is_fresh()
        &&& self.reader.is_fresh()
        &&& self.writing.is_fresh()
        &&& self.panels.is_fresh()
        &&& self.notices == (Notices { status: None, cancellable: None, offline: None })
        &&& self.cache.saved is None
        &&& !self.cache.disabled
        &&& self.cache.pending is None
        &&& self.trial.state == bench::unstarted()
        &&& self.trial.probe == (Probe { open: None, search: None })
    }

    /// The interface at its start. What the cache has kept is shown, without a cursor, until the
    /// service has answered.
    pub fn new(
        protocol: u32,
        bench: Bench,
        cache_host: Option<String>,
        seed: Option<Snapshot>,
    ) -> (r: Shell)
        ensures
            r.is_fresh(),
            r.protocol == protocol,
            r.trial.bench == bench,
            r.cache.host == cache_host,
            match seed {
                Some(seed) => r.list.folders == seed.folders && r.list.current == seed.folder
                    && r.list.rows == seed.rows,
                None => r.list.folders@.len() == 0 && r.list.current is None && r.list.rows@.len()
                    == 0,
            },
    {
        let (folders, current, rows) = match seed {
            Some(seed) => (seed.folders, seed.folder, seed.rows),
            None => (Vec::new(), None, Vec::new()),
        };
        Shell {
            protocol,
            hello: None,
            fatal: None,
            list: List {
                folders,
                current,
                rows,
                cursor: None,
                exhausted: false,
                loading_page: false,
                refreshing_head: false,
                selected: None,
                query: "".to_owned(),
                results: None,
                searching: false,
                focus_search: false,
            },
            reader: Reader::new(),
            writing: Writing::new(),
            panels: Panels::new(),
            notices: Notices { status: None, cancellable: None, offline: None },
            cache: Kept { host: cache_host, saved: None, disabled: false, pending: None },
            trial: Trial {
                bench,
                state: BenchState::new(),
                probe: Probe { open: None, search: None },
            },
        }
    }
}

// ---------------------------------------------------------------------------------------------
// The list
// ---------------------------------------------------------------------------------------------

/// Whether a folder is the first of that number.
pub open spec fn is_folder(folders: Seq<Folder>, i: int, id: i64) -> bool {
    &&& 0 <= i < folders.len()
    &&& folders[i].id == id
    &&& forall|j: int| 0 <= j < i ==> (#[trigger] folders[j]).id != id
}

/// Whether a next page is wanted: of a folder, with more to come, and with none on its way.
pub open spec fn page_wanted(list: List) -> bool {
    list.current is Some && !list.loading_page && !list.exhausted && list.results is None
}

/// The request for the next page, where one is wanted.
pub open spec fn page_asked(list: List) -> Seq<Request> {
    if page_wanted(list) {
        seq![Request::Page { folder: list.current->0, after: list.cursor, limit: PAGE }]
    } else {
        seq![]
    }
}

/// The list once a next page was asked for, where one is wanted.
pub open spec fn with_page_asked(list: List) -> List {
    List { loading_page: list.loading_page || page_wanted(list), ..list }
}

/// Whether a folder was opened: the list is emptied, and waits for a page.
pub open spec fn folder_opened(pre: List, id: i64, post: List) -> bool {
    &&& post == (List {
        current: Some(id),
        results: None,
        rows: post.rows,
        cursor: None,
        exhausted: false,
        selected: None,
        loading_page: true,
        ..pre
    })
    &&& post.rows@.len() == 0
}

/// The request for the first page of a folder.
pub open spec fn first_page(id: i64) -> Request {
    Request::Page { folder: id, after: None, limit: PAGE }
}

/// Whether a folder that has moved was read again. The open one keeps its rows, to have its first
/// page laid over them; another one is started anew.
pub open spec fn folder_reloaded(pre: List, id: i64, post: List) -> bool {
    if pre.current == Some(id) {
        post == (List { refreshing_head: true, ..pre })
    } else {
        &&& post == (List {
            current: Some(id),
            rows: post.rows,
            cursor: None,
            exhausted: false,
            loading_page: pre.loading_page || pre.results is None,
            ..pre
        })
        &&& post.rows@.len() == 0
    }
}

/// What is asked for when a folder is read again.
pub open spec fn reload_asked(pre: List, id: i64) -> Seq<Request> {
    if pre.current == Some(id) || (!pre.loading_page && pre.results is None) {
        seq![first_page(id)]
    } else {
        seq![]
    }
}

/// The rows that a fresh first page does not replace.
pub open spec fn kept_rows(rows: Seq<Row>, fresh: Seq<Row>) -> Seq<Row> {
    rows.filter(|row: Row| !has_row(fresh, row.id))
}

/// The rows once a fresh first page was laid over them.
pub open spec fn merged_rows(rows: Seq<Row>, fresh: Seq<Row>) -> Seq<Row> {
    fresh + kept_rows(rows, fresh)
}

/// Whether a fresh first page was laid over the rows. An empty page changes nothing. The cursor
/// moves only where no row was left under the page.
pub open spec fn head_merged(pre: List, page: Page, post: List) -> bool {
    if page.rows@.len() == 0 {
        post == pre
    } else {
        let anew = kept_rows(pre.rows@, page.rows@).len() == 0;
        &&& post == (List {
            rows: post.rows,
            cursor: if anew {
                page.next
            } else {
                pre.cursor
            },
            exhausted: if anew {
                page.next is None
            } else {
                pre.exhausted
            },
            ..pre
        })
        &&& post.rows@ == merged_rows(pre.rows@, page.rows@)
    }
}

/// Whether no two rows have the same number.
pub open spec fn distinct(rows: Seq<Row>) -> bool {
    forall|i: int, j: int|
        0 <= i < j < rows.len() ==> (#[trigger] rows[i]).id != (#[trigger] rows[j]).id
}

proof fn lemma_kept(rows: Seq<Row>, fresh: Seq<Row>)
    ensures
        forall|i: int|
            0 <= i < kept_rows(rows, fresh).len() ==> rows.contains(
                #[trigger] kept_rows(rows, fresh)[i],
            ) && !has_row(fresh, kept_rows(rows, fresh)[i].id),
        forall|i: int|
            0 <= i < rows.len() && !has_row(fresh, (#[trigger] rows[i]).id) ==> kept_rows(
                rows,
                fresh,
            ).contains(rows[i]),
        distinct(rows) ==> distinct(kept_rows(rows, fresh)),
    decreases rows.len(),
{
    reveal(Seq::filter);
    let kept = kept_rows(rows, fresh);
    if rows.len() > 0 {
        let short = rows.drop_last();
        let last = rows.last();
        let before = kept_rows(short, fresh);
        lemma_kept(short, fresh);
        if has_row(fresh, last.id) {
            assert(kept == before);
        } else {
            assert(kept == before.push(last));
            assert(kept[before.len() as int] == last);
        }
        assert forall|i: int| 0 <= i < kept.len() implies rows.contains(#[trigger] kept[i])
            && !has_row(fresh, kept[i].id) by {
            if i < before.len() {
                assert(short.contains(before[i]));
                let k = choose|k: int| 0 <= k < short.len() && short[k] == before[i];
                assert(rows[k] == kept[i]);
            } else {
                assert(rows[rows.len() - 1] == kept[i]);
            }
        }
        assert forall|i: int|
            0 <= i < rows.len() && !has_row(fresh, (#[trigger] rows[i]).id) implies kept.contains(
            rows[i],
        ) by {
            if i < short.len() {
                assert(short[i] == rows[i]);
                let k = choose|k: int| 0 <= k < before.len() && before[k] == rows[i];
                assert(kept[k] == rows[i]);
            }
        }
        if distinct(rows) {
            assert forall|i: int, j: int| 0 <= i < j < kept.len() implies (#[trigger] kept[i]).id
                != (#[trigger] kept[j]).id by {
                assert(distinct(short)) by {
                    assert forall|a: int, b: int| 0 <= a < b < short.len() implies (
                    #[trigger] short[a]).id != (#[trigger] short[b]).id by {
                        assert(rows[a].id != rows[b].id);
                    }
                }
                if j < before.len() {
                    assert(before[i].id != before[j].id);
                } else {
                    assert(short.contains(before[i]));
                    let k = choose|k: int| 0 <= k < short.len() && short[k] == before[i];
                    assert(rows[k].id != rows[rows.len() - 1].id);
                }
            }
        }
    }
}

/// A fresh first page loses no row: the page stands at the head, and each row that was loaded is
/// still there, unless the page holds a newer state of it.
pub proof fn a_merge_loses_no_row(rows: Seq<Row>, fresh: Seq<Row>)
    ensures
        merged_rows(rows, fresh).take(fresh.len() as int) == fresh,
        forall|i: int|
            0 <= i < rows.len() ==> merged_rows(rows, fresh).contains(#[trigger] rows[i])
                || has_row(fresh, rows[i].id),
        forall|i: int|
            0 <= i < merged_rows(rows, fresh).len() ==> fresh.contains(
                #[trigger] merged_rows(rows, fresh)[i],
            ) || rows.contains(merged_rows(rows, fresh)[i]),
{
    lemma_kept(rows, fresh);
    let kept = kept_rows(rows, fresh);
    let all = merged_rows(rows, fresh);
    assert forall|i: int| 0 <= i < rows.len() implies all.contains(#[trigger] rows[i]) || has_row(
        fresh,
        rows[i].id,
    ) by {
        if !has_row(fresh, rows[i].id) {
            let k = choose|k: int| 0 <= k < kept.len() && kept[k] == rows[i];
            assert(all[fresh.len() + k] == rows[i]);
        }
    }
    assert forall|i: int| 0 <= i < all.len() implies fresh.contains(#[trigger] all[i])
        || rows.contains(all[i]) by {
        if i < fresh.len() {
            assert(fresh[i] == all[i]);
        } else {
            assert(kept[i - fresh.len()] == all[i]);
        }
    }
}

/// A fresh first page repeats no row.
pub proof fn a_merge_repeats_no_row(rows: Seq<Row>, fresh: Seq<Row>)
    requires
        distinct(rows),
        distinct(fresh),
    ensures
        distinct(merged_rows(rows, fresh)),
{
    lemma_kept(rows, fresh);
    let kept = kept_rows(rows, fresh);
    let all = merged_rows(rows, fresh);
    assert forall|i: int, j: int| 0 <= i < j < all.len() implies (#[trigger] all[i]).id != (
    #[trigger] all[j]).id by {
        let n = fresh.len();
        if j < n {
            assert(fresh[i].id != fresh[j].id);
        } else if i >= n {
            assert(kept[i - n].id != kept[j - n].id);
        } else {
            assert(!has_row(fresh, kept[j - n].id));
            assert(fresh[i] == all[i]);
        }
    }
}

impl List {
    /// The rows that are shown: what a search found, or the folder.
    pub open spec fn shown(self) -> Seq<Row> {
        match self.results {
            Some(found) => found@,
            None => self.rows@,
        }
    }

    /// The folder that is open, where it is known.
    pub open spec fn opened(self) -> Option<Folder> {
        match self.current {
            None => None,
            Some(id) => if exists|i: int| is_folder(self.folders@, i, id) {
                Some(self.folders@[choose|i: int| is_folder(self.folders@, i, id)])
            } else {
                None
            },
        }
    }

    /// How many rows the list makes room for: those found, or those of the folder, loaded or not.
    pub open spec fn room(self) -> int {
        match self.results {
            Some(found) => found@.len() as int,
            None => match self.opened() {
                Some(folder) => if folder.total <= usize::MAX {
                    folder.total as int
                } else {
                    usize::MAX as int
                },
                None => 0,
            },
        }
    }

    /// The folder that is open, where it is known.
    pub fn folder(&self) -> (r: Option<&Folder>)
        ensures
            match r {
                Some(folder) => self.opened() == Some(*folder),
                None => self.opened() is None,
            },
    {
        match self.current {
            None => None,
            Some(id) => {
                let mut i: usize = 0;
                while i < self.folders.len()
                    invariant
                        self.current == Some(id),
                        i <= self.folders.len(),
                        forall|j: int| 0 <= j < i ==> (#[trigger] self.folders@[j]).id != id,
                    decreases self.folders.len() - i,
                {
                    if self.folders[i].id == id {
                        assert(is_folder(self.folders@, i as int, id));
                        let ghost k = choose|k: int| is_folder(self.folders@, k, id);
                        assert(k == i) by {
                            if k < i {
                                assert(self.folders@[k].id != id);
                            } else if i < k {
                                assert(self.folders@[i as int].id != id);
                            }
                        }
                        return Some(&self.folders[i]);
                    }
                    i = i + 1;
                }
                None
            },
        }
    }

    /// The rows that are shown: what a search found, or the folder.
    pub fn visible(&self) -> (r: &Vec<Row>)
        ensures
            r@ == self.shown(),
    {
        match &self.results {
            Some(found) => found,
            None => &self.rows,
        }
    }

    /// How many rows the list makes room for.
    pub fn total(&self) -> (r: usize)
        ensures
            r == self.room(),
    {
        match &self.results {
            Some(found) => {
                return found.len();
            },
            None => {},
        }
        match self.folder() {
            Some(folder) => if folder.total <= usize::MAX as u64 {
                folder.total as usize
            } else {
                usize::MAX
            },
            None => 0,
        }
    }

    /// Asks for the next page, where one is wanted.
    pub fn request_page(&mut self, out: &mut Vec<Request>)
        ensures
            *final(self) == with_page_asked(*old(self)),
            final(out)@ == old(out)@ + page_asked(*old(self)),
    {
        match self.current {
            None => {},
            Some(folder) => {
                if self.loading_page || self.exhausted || self.results.is_some() {
                    return;
                }
                self.loading_page = true;
                out.push(
                    Request::Page { folder, after: text::copy_opt(&self.cursor), limit: PAGE },
                );
            },
        }
    }

    /// Opens a folder: empties the list and asks for the first page, even while a page is on its
    /// way, which is late by then.
    pub fn open(&mut self, id: i64, out: &mut Vec<Request>)
        ensures
            folder_opened(*old(self), id, *final(self)),
            final(out)@ == old(out)@ + seq![first_page(id)],
    {
        self.current = Some(id);
        self.results = None;
        self.rows = Vec::new();
        self.cursor = None;
        self.exhausted = false;
        self.selected = None;
        self.loading_page = true;
        out.push(Request::Page { folder: id, after: None, limit: PAGE });
    }

    /// Reads a folder again without closing anything.
    pub fn reload_folder(&mut self, id: i64, out: &mut Vec<Request>)
        ensures
            folder_reloaded(*old(self), id, *final(self)),
            final(out)@ == old(out)@ + reload_asked(*old(self), id),
    {
        let same = match self.current {
            Some(current) => current == id,
            None => false,
        };
        if !same {
            self.current = Some(id);
            self.rows = Vec::new();
            self.cursor = None;
            self.exhausted = false;
            self.request_page(out);
            return;
        }
        self.refreshing_head = true;
        out.push(Request::Page { folder: id, after: None, limit: PAGE });
    }

    /// Lays a fresh first page over the rows that are loaded.
    pub fn merge_head(&mut self, page: Page)
        ensures
            head_merged(*old(self), page, *final(self)),
    {
        let rows = page.rows;
        let next = page.next;
        if rows.len() == 0 {
            return;
        }
        let mut fresh: HashSet<i64> = HashSet::new();
        let mut i: usize = 0;
        while i < rows.len()
            invariant
                i <= rows.len(),
                forall|id: i64| #[trigger]
                    fresh@.contains(id) <==> has_row(rows@.take(i as int), id),
            decreases rows.len() - i,
        {
            let ghost before = fresh@;
            let id: i64 = rows[i].id;
            fresh.insert(id);
            i = i + 1;
            assert forall|other: i64| #[trigger] fresh@.contains(other) <==> has_row(
                rows@.take(i as int),
                other,
            ) by {
                let short = rows@.take(i - 1);
                let long = rows@.take(i as int);
                if has_row(short, other) {
                    let k = choose|k: int|
                        0 <= k < short.len() && (#[trigger] short[k]).id == other;
                    assert(long[k].id == other);
                }
                if other == id {
                    assert(long[i - 1].id == other);
                }
                if has_row(long, other) {
                    let k = choose|k: int| 0 <= k < long.len() && (#[trigger] long[k]).id == other;
                    if k < i - 1 {
                        assert(short[k].id == other);
                    }
                }
                assert(before.contains(other) || !before.contains(other));
            }
        }
        assert(rows@.take(rows.len() as int) == rows@);
        let mut under: Vec<Row> = Vec::new();
        std::mem::swap(&mut under, &mut self.rows);
        let ghost all = under@;
        let ghost keep = |row: Row| !has_row(rows@, row.id);
        let mut kept: Vec<Row> = Vec::new();
        for row in it: under
            invariant
                it.seq() == all,
                0 <= it.index() <= all.len(),
                keep == (|row: Row| !has_row(rows@, row.id)),
                forall|id: i64| #[trigger] fresh@.contains(id) <==> has_row(rows@, id),
                kept@ == all.take(it.index() as int).filter(keep),
        {
            proof {
                let k = it.index() as int;
                assert(all.take(k + 1).drop_last() == all.take(k));
                assert(all.take(k + 1).last() == all[k]);
                reveal(Seq::filter);
            }
            if !fresh.contains(&row.id) {
                kept.push(row);
            }
        }
        assert(all.take(all.len() as int) == all);
        assert(kept@ == kept_rows(all, rows@));
        let had_rows = kept.len() > 0;
        let ghost top = rows@;
        let mut merged = rows;
        merged.append(&mut kept);
        self.rows = merged;
        if !had_rows {
            self.exhausted = next.is_none();
            self.cursor = next;
        }
    }
}

// ---------------------------------------------------------------------------------------------
// The cache
// ---------------------------------------------------------------------------------------------

/// Whether the cache is due: for a remote service, not purged, not written a moment ago, and with
/// something to keep.
pub open spec fn cache_due(cache: Kept, folders: Seq<Folder>, now: u64) -> bool {
    &&& cache.host is Some
    &&& !cache.disabled
    &&& match cache.saved {
        Some(last) => now - last >= CACHE_EVERY,
        None => true,
    }
    &&& folders.len() > 0
}

/// The revision that the service last said of its store.
pub open spec fn revision_of(hello: Option<Hello>) -> Seq<char> {
    match hello {
        Some(hello) => hello.revision@,
        None => ""@,
    }
}

/// Whether the cache was kept as it was due: what is to be written pictures the list, and the
/// time is noted.
pub open spec fn cache_kept(pre: Shell, list: List, now: u64, post: Kept) -> bool {
    if cache_due(pre.cache, list.folders@, now) {
        &&& post == (Kept { saved: Some(now), pending: post.pending, ..pre.cache })
        &&& post.pending matches Some(picture)
        &&& cache::pictures(
            picture,
            pre.protocol,
            revision_of(pre.hello),
            list.folders@,
            list.current,
            list.rows@,
        )
    } else {
        post == pre.cache
    }
}

impl Shell {
    /// Keeps the cache, where it is due.
    pub fn save_cache(&mut self, now: u64)
        ensures
            *final(self) == (Shell { cache: final(self).cache, ..*old(self) }),
            cache_kept(*old(self), old(self).list, now, final(self).cache),
    {
        if self.cache.host.is_none() || self.cache.disabled {
            return;
        }
        match self.cache.saved {
            Some(last) => {
                if now < last || now - last < CACHE_EVERY {
                    return;
                }
            },
            None => {},
        }
        let revision = match &self.hello {
            Some(hello) => hello.revision.clone(),
            None => "".to_owned(),
        };
        let snapshot = Snapshot::new(
            self.protocol,
            revision,
            dto::copy_folders(&self.list.folders),
            self.list.current,
            &self.list.rows,
        );
        if !snapshot.worth_writing() {
            return;
        }
        self.cache.saved = Some(now);
        self.cache.pending = Some(snapshot);
    }
}

/// The cache is written sparingly: within the delay after a writing, whatever becomes of the list,
/// nothing is written.
pub proof fn the_cache_is_written_sparingly(
    pre: Shell,
    list: List,
    last: u64,
    now: u64,
    post: Kept,
)
    requires
        cache_kept(pre, list, now, post),
        pre.cache.saved == Some(last),
        now - last < CACHE_EVERY,
    ensures
        post == pre.cache,
{
}

} // verus!
