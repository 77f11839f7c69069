//! What each answer of the service makes of the interface.
use crate::bench;
use crate::bench::{BenchState, Phase, Probe, Verdict};
use crate::compose::Compose;
use crate::dto::{Attached, Folder, Hello, MessageSource, Page, Queued, Results};
use crate::protocol::{Opened, Reply, Request, SourceOf};
use crate::settings;
use crate::shell;
use crate::shell::{List, Notices, Panels, Reader, Shell, SourceView, Trial, Writing, BODY_STEP};
use crate::signature::Document;
use crate::text;
use crate::worker;
use vstd::prelude::*;
use vstd::string::*;

verus! {

broadcast use vstd::std_specs::hash::group_hash_axioms;

// ---------------------------------------------------------------------------------------------
// What is said
// ---------------------------------------------------------------------------------------------

/// What is said of a service that speaks another version of the contract.
pub open spec fn disagreement(ours: u32, theirs: u32) -> Seq<char> {
    "cette coquille parle le protocole "@ + text::dec(ours as nat) + ", le service parle "@
        + text::dec(theirs as nat) + ". Mettre les deux à jour ensemble."@
}

fn disagreement_text(ours: u32, theirs: u32) -> (r: String)
    ensures
        r@ == disagreement(ours, theirs),
{
    let mut out = "cette coquille parle le protocole ".to_owned();
    out.append(text::decimal(ours as u64).as_str());
    out.append(", le service parle ");
    out.append(text::decimal(theirs as u64).as_str());
    out.append(". Mettre les deux à jour ensemble.");
    out
}

/// What is said of a message in the queue: it is not sent yet, and when it will be is what the
/// service says.
pub open spec fn queued_words(queued: Queued) -> Seq<char> {
    let counted = "Message en file d'envoi ("@ + text::dec(queued.recipients@.len())
        + " destinataire(s), "@ + text::dec(queued.size as nat);
    if queued.hold > 0 {
        counted + " octets). Il partira dans "@ + text::dec(queued.hold as nat)
            + " s, même si vous fermez la fenêtre."@
    } else {
        counted + " octets). Il partira même si vous fermez la fenêtre."@
    }
}

fn queued_text(queued: &Queued) -> (r: String)
    ensures
        r@ == queued_words(*queued),
{
    let mut out = "Message en file d'envoi (".to_owned();
    out.append(text::decimal_usize(queued.recipients.len()).as_str());
    out.append(" destinataire(s), ");
    out.append(text::decimal(queued.size).as_str());
    if queued.hold > 0 {
        out.append(" octets). Il partira dans ");
        out.append(text::decimal(queued.hold).as_str());
        out.append(" s, même si vous fermez la fenêtre.");
    } else {
        out.append(" octets). Il partira même si vous fermez la fenêtre.");
    }
    out
}

/// What is said of a message that was to be held back: what happened, not what was asked.
pub open spec fn cancelled_words(cancelled: bool) -> Seq<char> {
    if cancelled {
        "Envoi annulé : le message ne partira pas."@
    } else {
        "Trop tard : le message était déjà en cours de remise."@
    }
}

/// What is said of a request that failed.
pub open spec fn failure_words(what: Seq<char>, message: Seq<char>) -> Seq<char> {
    what + " : "@ + message
}

// ---------------------------------------------------------------------------------------------
// What becomes of the state
// ---------------------------------------------------------------------------------------------

/// The reader without a message.
pub open spec fn reader_closed(pre: Reader, post: Reader) -> bool {
    &&& post == (Reader {
        message: None,
        body: post.body,
        thread: post.thread,
        open_error: None,
        ..pre
    })
    &&& post.body@.len() == 0
    &&& post.thread@.len() == 0
}

/// Whether a folder was opened: the list and the reader are emptied, and nothing else moves.
pub open spec fn shows_folder(pre: Shell, id: i64, post: Shell) -> bool {
    &&& post == (Shell { list: post.list, reader: post.reader, ..pre })
    &&& shell::folder_opened(pre.list, id, post.list)
    &&& reader_closed(pre.reader, post.reader)
}

/// The first screen.
pub open spec fn first_screen(
    pre: Shell,
    folders: Vec<Folder>,
    folder: i64,
    page: Page,
    now: u64,
    post: Shell,
) -> bool {
    &&& post == (Shell {
        list: List {
            folders,
            current: Some(folder),
            rows: page.rows,
            cursor: page.next,
            exhausted: page.next is None,
            ..pre.list
        },
        cache: post.cache,
        ..pre
    })
    &&& shell::cache_kept(pre, post.list, now, post.cache)
}

/// The greeting: a service that speaks another version of the contract stops the interface.
pub open spec fn greeted(pre: Shell, hello: Hello, post: Shell) -> bool {
    if hello.protocol == pre.protocol {
        post == (Shell { hello: Some(hello), ..pre })
    } else {
        &&& post == (Shell { fatal: post.fatal, ..pre })
        &&& shell::reads(post.fatal, disagreement(pre.protocol, hello.protocol))
    }
}

/// The folders: where none is open yet, the one that opens first is opened.
pub open spec fn foldered(pre: Shell, folders: Vec<Folder>, post: Shell) -> bool {
    let mid = Shell { list: List { folders, ..pre.list }, ..pre };
    match worker::opening(folders@) {
        Some(id) if pre.list.current is None => shows_folder(mid, id, post),
        _ => post == mid,
    }
}

/// Whether a page is the fresh first page of the open folder, which was asked for.
pub open spec fn is_head(list: List, folder: i64, after: Option<String>) -> bool {
    list.refreshing_head && after is None && list.current == Some(folder)
}

/// Whether a page is the one that the list waits for: of its folder, and behind its cursor.
pub open spec fn is_next(list: List, folder: i64, after: Option<String>) -> bool {
    list.current == Some(folder) && text::opt_text(list.cursor) == text::opt_text(after)
}

/// A page: a fresh first page is laid over the rows, the next page is added to them, and a late
/// one is dropped.
pub open spec fn paged(
    pre: Shell,
    folder: i64,
    after: Option<String>,
    page: Page,
    now: u64,
    post: Shell,
) -> bool {
    &&& post == (Shell { list: post.list, cache: post.cache, ..pre })
    &&& if is_head(pre.list, folder, after) {
        &&& shell::head_merged(List { refreshing_head: false, ..pre.list }, page, post.list)
        &&& if page.rows@.len() == 0 {
            post.cache == pre.cache
        } else {
            shell::cache_kept(pre, post.list, now, post.cache)
        }
    } else if is_next(pre.list, folder, after) {
        &&& post.list == (List {
            rows: post.list.rows,
            cursor: page.next,
            exhausted: page.next is None,
            loading_page: false,
            ..pre.list
        })
        &&& post.list.rows@ == pre.list.rows@ + page.rows@
        &&& shell::cache_kept(pre, post.list, now, post.cache)
    } else {
        post.list == (List { loading_page: false, ..pre.list }) && post.cache == pre.cache
    }
}

/// The run once a probe has answered.
pub open spec fn probed_open(trial: Trial, verdict: Verdict) -> Trial {
    if trial.state.phase == Phase::Probing {
        Trial { probe: Probe { open: Some(verdict), ..trial.probe }, ..trial }
    } else {
        trial
    }
}

/// The run once the other probe has answered.
pub open spec fn probed_search(trial: Trial, verdict: Verdict) -> Trial {
    if trial.state.phase == Phase::Probing {
        Trial { probe: Probe { search: Some(verdict), ..trial.probe }, ..trial }
    } else {
        trial
    }
}

/// A message: it is shown from its beginning, or said to be gone.
pub open spec fn opened_message(pre: Shell, opened: Option<Opened>, post: Shell) -> bool {
    &&& post == (Shell {
        reader: post.reader,
        trial: probed_open(pre.trial, Verdict::Served),
        ..pre
    })
    &&& post.reader.thread@.len() == 0
    &&& match opened {
        Some(opened) => post.reader == (Reader {
            message: Some(opened.message),
            body: opened.body,
            body_shown: BODY_STEP,
            opening: false,
            thread: post.reader.thread,
            ..pre.reader
        }),
        None => {
            &&& post.reader == (Reader {
                message: None,
                body: post.reader.body,
                opening: false,
                open_error: post.reader.open_error,
                thread: post.reader.thread,
                ..pre.reader
            })
            &&& post.reader.body@.len() == 0
            &&& shell::reads(post.reader.open_error, "ce message n'existe plus dans le store"@)
        },
    }
}

/// The settings page, where it is open.
pub open spec fn with_settings(pre: Shell, page: Option<settings::Page>) -> Shell {
    Shell { panels: Panels { settings: page, ..pre.panels }, ..pre }
}

/// The source of a message: dropped unless it is that of what the window shows.
pub open spec fn sourced(
    pre: Shell,
    of: SourceOf,
    found: Option<MessageSource>,
    post: Shell,
) -> bool {
    match pre.panels.source {
        Some(view) if view.of == of => {
            &&& post == (Shell { panels: Panels { source: post.panels.source, ..pre.panels }, ..pre })
            &&& post.panels.source matches Some(after)
            &&& after == (SourceView { found, error: after.error, ..view })
            &&& if found is None {
                shell::reads(after.error, "introuvable, ou son contenu manque du magasin"@)
            } else {
                after.error == view.error
            }
        },
        _ => post == pre,
    }
}

/// What a search found: without an index it is nothing, and the user is told.
pub open spec fn searched(pre: Shell, found: Results, post: Shell) -> bool {
    &&& post == (Shell {
        list: List { searching: false, results: post.list.results, ..pre.list },
        notices: Notices { status: post.notices.status, ..pre.notices },
        trial: probed_search(pre.trial, Verdict::Served),
        ..pre
    })
    &&& if found.search_available {
        post.list.results == Some(found.rows) && post.notices.status == pre.notices.status
    } else {
        &&& post.list.results matches Some(rows)
        &&& rows@.len() == 0
        &&& shell::reads(
            post.notices.status,
            "l'index plein texte est absent : `mail index` le construit"@,
        )
    }
}

/// A file is attached to the message that is being written, if one still is.
pub open spec fn attached(pre: Shell, file: Attached, post: Shell) -> bool {
    &&& post == (Shell { writing: Writing { compose: post.writing.compose, ..pre.writing }, ..pre })
    &&& match pre.writing.compose {
        Some(before) => {
            &&& post.writing.compose matches Some(after)
            &&& after == (Compose { attachments: after.attachments, ..before })
            &&& after.attachments@ == before.attachments@.push(file)
        },
        None => post.writing.compose is None,
    }
}

/// A signature: the editor that was saving it is closed on what was stored.
pub open spec fn signed(
    pre: Shell,
    account: i64,
    found: Option<Document>,
    post: Shell,
) -> bool {
    let closes = pre.writing.editor matches Some(editor) && editor.account == account
        && editor.saving;
    &&& post == (Shell {
        writing: Writing {
            signatures: post.writing.signatures,
            editor: if closes {
                None
            } else {
                pre.writing.editor
            },
            ..pre.writing
        },
        notices: Notices { status: post.notices.status, ..pre.notices },
        ..pre
    })
    &&& post.writing.signatures@ == pre.writing.signatures@.insert(account, found)
    &&& if closes {
        shell::reads(post.notices.status, "Signature enregistrée."@)
    } else {
        post.notices.status == pre.notices.status
    }
}

/// A message in the queue: its window closes, and it can be held back while the service keeps it.
pub open spec fn queued(pre: Shell, it: Queued, post: Shell) -> bool {
    &&& post == (Shell {
        writing: Writing { sending: false, compose: None, ..pre.writing },
        notices: Notices {
            status: post.notices.status,
            cancellable: if it.hold > 0 {
                Some(it.id)
            } else {
                None
            },
            ..pre.notices
        },
        ..pre
    })
    &&& shell::reads(post.notices.status, queued_words(it))
}

/// The store has moved: the lists are read again, and what is being read or written stays.
pub open spec fn moved(pre: Shell, post: Shell) -> bool {
    &&& post == (Shell {
        list: post.list,
        trial: if pre.trial.state.phase == Phase::Scrolling {
            Trial {
                state: BenchState {
                    changed_while_scrolling: bench::counted(
                        pre.trial.state.changed_while_scrolling,
                        1,
                    ),
                    ..pre.trial.state
                },
                ..pre.trial
            }
        } else {
            pre.trial
        },
        ..pre
    })
    &&& match pre.list.current {
        Some(id) => shell::folder_reloaded(pre.list, id, post.list),
        None => post.list == pre.list,
    }
}

/// The settings page when a request failed: a refusal about the accounts is shown there.
pub open spec fn settings_failed(
    page: Option<settings::Page>,
    what: Seq<char>,
    message: String,
) -> Option<settings::Page> {
    match page {
        Some(page) if what == "compte"@ || what == "comptes"@ => Some(
            settings::Page { message: Some(message), failed: true, consent_url: None, ..page },
        ),
        other => other,
    }
}

/// The source window when a request failed.
pub open spec fn source_failed(
    view: Option<SourceView>,
    what: Seq<char>,
    message: String,
) -> Option<SourceView> {
    match view {
        Some(view) if what == "source"@ => Some(SourceView { error: Some(message), ..view }),
        other => other,
    }
}

/// The run when a request failed.
pub open spec fn probe_failed(trial: Trial, what: Seq<char>, transport: bool) -> Trial {
    if what == "message"@ {
        probed_open(trial, bench::verdict_of(transport))
    } else if what == "recherche"@ {
        probed_search(trial, bench::verdict_of(transport))
    } else {
        trial
    }
}

/// A request that failed: the user is told, what waited for it waits no more, and nothing that was
/// loaded or written is given up.
pub open spec fn failed(
    pre: Shell,
    what: Seq<char>,
    message: String,
    transport: bool,
    post: Shell,
) -> bool {
    &&& post == (Shell {
        list: List {
            loading_page: pre.list.loading_page && what != "page"@,
            searching: pre.list.searching && what != "recherche"@,
            ..pre.list
        },
        reader: if what == "message"@ {
            Reader { opening: false, open_error: Some(message), ..pre.reader }
        } else {
            pre.reader
        },
        writing: Writing { sending: pre.writing.sending && what != "envoi"@, ..pre.writing },
        panels: Panels {
            settings: settings_failed(pre.panels.settings, what, message),
            source: source_failed(pre.panels.source, what, message),
            ..pre.panels
        },
        notices: Notices {
            status: post.notices.status,
            offline: if transport {
                Some(message)
            } else {
                pre.notices.offline
            },
            ..pre.notices
        },
        trial: probe_failed(pre.trial, what, transport),
        ..pre
    })
    &&& shell::reads(post.notices.status, failure_words(what, message@))
}

/// Whether the state after an answer is what it makes of the state before.
pub open spec fn absorbed(pre: Shell, reply: Reply, now: u64, post: Shell) -> bool {
    match reply {
        Reply::Bootstrap { folders, folder, page } => first_screen(
            pre,
            folders,
            folder,
            page,
            now,
            post,
        ),
        Reply::Hello(hello) => greeted(pre, hello, post),
        Reply::Folders(folders) => foldered(pre, folders, post),
        Reply::Page { folder, after, page } => paged(pre, folder, after, page, now, post),
        Reply::Open(opened) => opened_message(pre, opened, post),
        Reply::Thread(rows) => post == (Shell {
            reader: Reader { thread: rows, ..pre.reader },
            ..pre
        }),
        Reply::AccountsDetail(accounts) => post == with_settings(
            pre,
            match pre.panels.settings {
                Some(page) => Some(settings::Page { accounts, ..page }),
                None => None,
            },
        ),
        Reply::ConsentUrl(url) => post == with_settings(
            pre,
            match pre.panels.settings {
                Some(page) => Some(
                    settings::Page { consenting: None, consent_url: Some(url), ..page },
                ),
                None => None,
            },
        ),
        Reply::AccountWritten(said) => post == with_settings(
            pre,
            match pre.panels.settings {
                Some(page) => Some(
                    settings::Page {
                        message: Some(said),
                        failed: false,
                        consenting: None,
                        consent_url: None,
                        declaring: None,
                        submitting: None,
                        ..page
                    },
                ),
                None => None,
            },
        ),
        Reply::Source { of, found } => sourced(pre, of, found, post),
        Reply::Search(found) => searched(pre, found, post),
        Reply::Sources(sources) => post == (Shell {
            panels: Panels { sources, ..pre.panels },
            ..pre
        }),
        Reply::Jobs(jobs) => post == (Shell { panels: Panels { jobs, ..pre.panels }, ..pre }),
        Reply::Accounts(accounts) => post == (Shell {
            writing: Writing { accounts, ..pre.writing },
            ..pre
        }),
        Reply::Attached(file) => attached(pre, file, post),
        Reply::Acknowledged => post == pre,
        Reply::Complete { token, found } => post == (Shell {
            writing: if token == pre.writing.suggest_token {
                Writing { suggestions: found, ..pre.writing }
            } else {
                pre.writing
            },
            ..pre
        }),
        Reply::Outbox(outbox) => post == (Shell { panels: Panels { outbox, ..pre.panels }, ..pre }),
        Reply::Drafts(drafts) => post == (Shell {
            writing: Writing { drafts, ..pre.writing },
            ..pre
        }),
        Reply::Saved(id) => post == (Shell {
            writing: Writing {
                compose: match pre.writing.compose {
                    Some(compose) => Some(Compose { draft: id, ..compose }),
                    None => None,
                },
                ..pre.writing
            },
            ..pre
        }),
        Reply::Signature { account, found } => signed(pre, account, found, post),
        Reply::Queued(it) => queued(pre, it, post),
        Reply::Cancelled(cancelled) => {
            &&& post == (Shell {
                notices: Notices {
                    status: post.notices.status,
                    cancellable: None,
                    ..pre.notices
                },
                ..pre
            })
            &&& shell::reads(post.notices.status, cancelled_words(cancelled))
        },
        Reply::Started => post == (Shell {
            panels: Panels { jobs_polled: None, ..pre.panels },
            ..pre
        }),
        Reply::Changed => moved(pre, post),
        Reply::Online => post == (Shell {
            notices: Notices { offline: None, ..pre.notices },
            ..pre
        }),
        Reply::Failed { what, message, transport } => failed(pre, what@, message, transport, post),
    }
}

/// What is asked for when an answer comes.
pub open spec fn asks_of(pre: Shell, reply: Reply) -> Seq<Request> {
    match reply {
        Reply::Folders(folders) => match worker::opening(folders@) {
            Some(id) if pre.list.current is None => seq![shell::first_page(id)],
            _ => seq![],
        },
        Reply::Open(opened) => match opened {
            Some(opened) if opened.message.thread is Some => seq![
                Request::Thread { id: opened.message.row.id },
            ],
            _ => seq![],
        },
        Reply::AccountWritten(_) => seq![Request::AccountsDetail, Request::Accounts],
        Reply::Saved(_) => seq![Request::Drafts],
        Reply::Queued(_) => {
            let after = seq![Request::Outbox, Request::Drafts];
            match pre.writing.compose {
                Some(compose) => match compose.draft {
                    Some(id) => seq![Request::DeleteDraft { id }] + after,
                    None => after,
                },
                None => after,
            }
        },
        Reply::Cancelled(_) => seq![Request::Outbox],
        Reply::Started => seq![Request::Jobs],
        Reply::Changed => {
            let read = seq![Request::Folders, Request::Outbox, Request::Drafts];
            match pre.list.current {
                Some(id) => read + shell::reload_asked(pre.list, id),
                None => read,
            }
        },
        _ => seq![],
    }
}

// ---------------------------------------------------------------------------------------------
// The work
// ---------------------------------------------------------------------------------------------

impl List {
    /// Waits no more for what has failed.
    fn give_up(&mut self, what: &str)
        ensures
            *final(self) == (List {
                loading_page: old(self).loading_page && what@ != "page"@,
                searching: old(self).searching && what@ != "recherche"@,
                ..*old(self)
            }),
    {
        if text::same(what, "page") {
            self.loading_page = false;
        }
        if text::same(what, "recherche") {
            self.searching = false;
        }
    }
}

impl Reader {
    /// Waits no more for a message that cannot be opened, and says why.
    fn give_up(&mut self, what: &str, message: &String)
        ensures
            *final(self) == if what@ == "message"@ {
                Reader { opening: false, open_error: Some(*message), ..*old(self) }
            } else {
                *old(self)
            },
    {
        if text::same(what, "message") {
            self.opening = false;
            self.open_error = Some(message.clone());
        }
    }
}

impl Panels {
    /// Says in its own window what concerns it.
    fn give_up(&mut self, what: &str, message: &String)
        ensures
            *final(self) == (Panels {
                settings: settings_failed(old(self).settings, what@, *message),
                source: source_failed(old(self).source, what@, *message),
                ..*old(self)
            }),
    {
        if text::same(what, "compte") || text::same(what, "comptes") {
            match &mut self.settings {
                Some(page) => {
                    page.message = Some(message.clone());
                    page.failed = true;
                    page.consent_url = None;
                },
                None => {},
            }
        }
        if text::same(what, "source") {
            match &mut self.source {
                Some(view) => {
                    view.error = Some(message.clone());
                },
                None => {},
            }
        }
    }
}

impl Trial {
    /// Notes how a probe failed.
    fn give_up(&mut self, what: &str, transport: bool)
        ensures
            *final(self) == probe_failed(*old(self), what@, transport),
    {
        if self.state.phase == Phase::Probing {
            if text::same(what, "message") {
                self.probe.open = Some(Probe::verdict(transport));
            } else if text::same(what, "recherche") {
                self.probe.search = Some(Probe::verdict(transport));
            }
        }
    }
}

impl Shell {
    /// Opens a folder: empties the list and the reader, and asks for the first page.
    pub fn open_folder(&mut self, id: i64, out: &mut Vec<Request>)
        ensures
            shows_folder(*old(self), id, *final(self)),
            final(out)@ == old(out)@ + seq![shell::first_page(id)],
    {
        self.reader.message = None;
        self.reader.body = Vec::new();
        self.reader.thread = Vec::new();
        self.reader.open_error = None;
        self.list.open(id, out);
    }

    fn absorb_screen(&mut self, folders: Vec<Folder>, folder: i64, page: Page, now: u64)
        ensures
            first_screen(*old(self), folders, folder, page, now, *final(self)),
    {
        self.list.folders = folders;
        self.list.current = Some(folder);
        self.list.rows = page.rows;
        self.list.exhausted = page.next.is_none();
        self.list.cursor = page.next;
        self.save_cache(now);
    }

    fn absorb_hello(&mut self, hello: Hello)
        ensures
            greeted(*old(self), hello, *final(self)),
    {
        if hello.protocol == self.protocol {
            self.hello = Some(hello);
        } else {
            self.fatal = Some(disagreement_text(self.protocol, hello.protocol));
        }
    }

    fn absorb_folders(&mut self, folders: Vec<Folder>, out: &mut Vec<Request>)
        ensures
            foldered(*old(self), folders, *final(self)),
            final(out)@ == old(out)@ + asks_of(*old(self), Reply::Folders(folders)),
    {
        let chosen = worker::opening_folder(&folders);
        self.list.folders = folders;
        if self.list.current.is_none() {
            match chosen {
                Some(id) => {
                    self.open_folder(id, out);
                },
                None => {},
            }
        }
    }

    fn absorb_page(&mut self, folder: i64, after: Option<String>, page: Page, now: u64)
        ensures
            paged(*old(self), folder, after, page, now, *final(self)),
    {
        let here = match self.list.current {
            Some(current) => current == folder,
            None => false,
        };
        if self.list.refreshing_head && after.is_none() && here {
            self.list.refreshing_head = false;
            let empty = page.rows.len() == 0;
            self.list.merge_head(page);
            if !empty {
                self.save_cache(now);
            }
            return;
        }
        self.list.loading_page = false;
        if here && text::same_opt(&self.list.cursor, &after) {
            let mut rows = page.rows;
            self.list.rows.append(&mut rows);
            self.list.exhausted = page.next.is_none();
            self.list.cursor = page.next;
            self.save_cache(now);
        }
    }

    fn absorb_open(&mut self, opened: Option<Opened>, out: &mut Vec<Request>)
        ensures
            opened_message(*old(self), opened, *final(self)),
            final(out)@ == old(out)@ + asks_of(*old(self), Reply::Open(opened)),
    {
        self.reader.opening = false;
        if self.trial.state.phase == Phase::Probing {
            self.trial.probe.open = Some(Verdict::Served);
        }
        self.reader.thread = Vec::new();
        match opened {
            Some(opened) => {
                self.reader.body = opened.body;
                self.reader.body_shown = BODY_STEP;
                if opened.message.thread.is_some() {
                    out.push(Request::Thread { id: opened.message.row.id });
                }
                self.reader.message = Some(opened.message);
            },
            None => {
                self.reader.message = None;
                self.reader.body = Vec::new();
                self.reader.open_error = Some("ce message n'existe plus dans le store".to_owned());
            },
        }
    }

    fn absorb_source(&mut self, of: SourceOf, found: Option<MessageSource>)
        ensures
            sourced(*old(self), of, found, *final(self)),
    {
        match &mut self.panels.source {
            Some(view) => {
                if view.of == of {
                    if found.is_none() {
                        view.error = Some(
                            "introuvable, ou son contenu manque du magasin".to_owned(),
                        );
                    }
                    view.found = found;
                }
            },
            None => {},
        }
    }

    fn absorb_search(&mut self, found: Results)
        ensures
            searched(*old(self), found, *final(self)),
    {
        self.list.searching = false;
        if self.trial.state.phase == Phase::Probing {
            self.trial.probe.search = Some(Verdict::Served);
        }
        if found.search_available {
            self.list.results = Some(found.rows);
        } else {
            self.list.results = Some(Vec::new());
            self.notices.status = Some(
                "l'index plein texte est absent : `mail index` le construit".to_owned(),
            );
        }
    }

    fn absorb_signature(&mut self, account: i64, found: Option<Document>)
        ensures
            signed(*old(self), account, found, *final(self)),
    {
        self.writing.signatures.insert(account, found);
        let closes = match &self.writing.editor {
            Some(editor) => editor.account == account && editor.saving,
            None => false,
        };
        if closes {
            self.writing.editor = None;
            self.notices.status = Some("Signature enregistrée.".to_owned());
        }
    }

    fn absorb_queued(&mut self, it: Queued, out: &mut Vec<Request>)
        ensures
            queued(*old(self), it, *final(self)),
            final(out)@ == old(out)@ + asks_of(*old(self), Reply::Queued(it)),
    {
        self.writing.sending = false;
        let draft = match &self.writing.compose {
            Some(compose) => compose.draft,
            None => None,
        };
        match draft {
            Some(id) => {
                out.push(Request::DeleteDraft { id });
            },
            None => {},
        }
        self.writing.compose = None;
        self.notices.status = Some(queued_text(&it));
        self.notices.cancellable = if it.hold > 0 {
            Some(it.id)
        } else {
            None
        };
        out.push(Request::Outbox);
        out.push(Request::Drafts);
    }

    fn absorb_change(&mut self, out: &mut Vec<Request>)
        ensures
            moved(*old(self), *final(self)),
            final(out)@ == old(out)@ + asks_of(*old(self), Reply::Changed),
    {
        if self.trial.state.phase == Phase::Scrolling {
            self.trial.state.changed_while_scrolling = bench::count(
                self.trial.state.changed_while_scrolling,
                1,
            );
        }
        out.push(Request::Folders);
        out.push(Request::Outbox);
        out.push(Request::Drafts);
        match self.list.current {
            Some(id) => {
                self.list.reload_folder(id, out);
            },
            None => {},
        }
    }

    fn absorb_failure(&mut self, what: &'static str, message: String, transport: bool)
        ensures
            failed(*old(self), what@, message, transport, *final(self)),
    {
        self.list.give_up(what);
        self.reader.give_up(what, &message);
        self.panels.give_up(what, &message);
        self.trial.give_up(what, transport);
        if text::same(what, "envoi") {
            self.writing.sending = false;
        }
        let mut said = what.to_owned();
        said.append(" : ");
        said.append(message.as_str());
        self.notices.status = Some(said);
        if transport {
            self.notices.offline = Some(message);
        }
    }

    fn absorb_accounts(&mut self, reply: Reply, out: &mut Vec<Request>)
        requires
            reply is AccountsDetail || reply is ConsentUrl || reply is AccountWritten,
        ensures
            absorbed(*old(self), reply, 0, *final(self)),
            final(out)@ == old(out)@ + asks_of(*old(self), reply),
    {
        match reply {
            Reply::AccountsDetail(found) => {
                match &mut self.panels.settings {
                    Some(page) => {
                        page.accounts = found;
                    },
                    None => {},
                }
            },
            Reply::ConsentUrl(url) => {
                match &mut self.panels.settings {
                    Some(page) => {
                        page.consenting = None;
                        page.consent_url = Some(url);
                    },
                    None => {},
                }
            },
            Reply::AccountWritten(said) => {
                match &mut self.panels.settings {
                    Some(page) => {
                        page.message = Some(said);
                        page.failed = false;
                        page.consenting = None;
                        page.consent_url = None;
                        page.declaring = None;
                        page.submitting = None;
                    },
                    None => {},
                }
                out.push(Request::AccountsDetail);
                out.push(Request::Accounts);
            },
            _ => {},
        }
    }

    fn absorb_writing(&mut self, reply: Reply, out: &mut Vec<Request>)
        requires
            reply is Attached || reply is Saved || reply is Complete || reply is Drafts
                || reply is Accounts,
        ensures
            absorbed(*old(self), reply, 0, *final(self)),
            final(out)@ == old(out)@ + asks_of(*old(self), reply),
    {
        match reply {
            Reply::Attached(file) => {
                match &mut self.writing.compose {
                    Some(compose) => {
                        compose.attachments.push(file);
                    },
                    None => {},
                }
            },
            Reply::Saved(id) => {
                match &mut self.writing.compose {
                    Some(compose) => {
                        compose.draft = id;
                    },
                    None => {},
                }
                out.push(Request::Drafts);
            },
            Reply::Complete { token, found } => {
                if token == self.writing.suggest_token {
                    self.writing.suggestions = found;
                }
            },
            Reply::Drafts(drafts) => {
                self.writing.drafts = drafts;
            },
            Reply::Accounts(accounts) => {
                self.writing.accounts = accounts;
            },
            _ => {},
        }
    }

    /// Takes an answer in, and adds what it makes the interface ask for.
    pub fn absorb(&mut self, reply: Reply, now: u64, out: &mut Vec<Request>)
        ensures
            absorbed(*old(self), reply, now, *final(self)),
            final(out)@ == old(out)@ + asks_of(*old(self), reply),
    {
        match reply {
            Reply::Bootstrap { folders, folder, page } => self.absorb_screen(
                folders,
                folder,
                page,
                now,
            ),
            Reply::Hello(hello) => self.absorb_hello(hello),
            Reply::Folders(folders) => self.absorb_folders(folders, out),
            Reply::Page { folder, after, page } => self.absorb_page(folder, after, page, now),
            Reply::Open(opened) => self.absorb_open(opened, out),
            Reply::Thread(rows) => {
                self.reader.thread = rows;
            },
            Reply::AccountsDetail(_) => self.absorb_accounts(reply, out),
            Reply::ConsentUrl(_) => self.absorb_accounts(reply, out),
            Reply::AccountWritten(_) => self.absorb_accounts(reply, out),
            Reply::Source { of, found } => self.absorb_source(of, found),
            Reply::Search(found) => self.absorb_search(found),
            Reply::Sources(sources) => {
                self.panels.sources = sources;
            },
            Reply::Jobs(jobs) => {
                self.panels.jobs = jobs;
            },
            Reply::Accounts(_) => self.absorb_writing(reply, out),
            Reply::Attached(_) => self.absorb_writing(reply, out),
            Reply::Acknowledged => {},
            Reply::Complete { .. } => self.absorb_writing(reply, out),
            Reply::Outbox(outbox) => {
                self.panels.outbox = outbox;
            },
            Reply::Drafts(_) => self.absorb_writing(reply, out),
            Reply::Saved(_) => self.absorb_writing(reply, out),
            Reply::Signature { account, found } => self.absorb_signature(account, found),
            Reply::Queued(it) => self.absorb_queued(it, out),
            Reply::Cancelled(cancelled) => {
                self.notices.status = Some(
                    if cancelled {
                        "Envoi annulé : le message ne partira pas.".to_owned()
                    } else {
                        "Trop tard : le message était déjà en cours de remise.".to_owned()
                    },
                );
                self.notices.cancellable = None;
                out.push(Request::Outbox);
            },
            Reply::Started => {
                self.panels.jobs_polled = None;
                out.push(Request::Jobs);
            },
            Reply::Changed => self.absorb_change(out),
            Reply::Online => {
                self.notices.offline = None;
            },
            Reply::Failed { what, message, transport } => self.absorb_failure(
                what,
                message,
                transport,
            ),
        }
    }
}

// ---------------------------------------------------------------------------------------------
// What holds of every answer
// ---------------------------------------------------------------------------------------------

/// A failure, of the transport or not, takes away nothing that was loaded, read or written, and
/// the user is told of it.
pub proof fn a_failure_erases_nothing(
    pre: Shell,
    what: &'static str,
    message: String,
    transport: bool,
    now: u64,
    post: Shell,
)
    requires
        absorbed(pre, Reply::Failed { what, message, transport }, now, post),
    ensures
        post.list.folders == pre.list.folders,
        post.list.current == pre.list.current,
        post.list.rows == pre.list.rows,
        post.list.cursor == pre.list.cursor,
        post.list.results == pre.list.results,
        post.list.selected == pre.list.selected,
        post.reader.message == pre.reader.message,
        post.reader.body == pre.reader.body,
        post.reader.thread == pre.reader.thread,
        post.writing.compose == pre.writing.compose,
        post.writing.editor == pre.writing.editor,
        post.writing.drafts == pre.writing.drafts,
        post.panels.outbox == pre.panels.outbox,
        shell::reads(post.notices.status, failure_words(what@, message@)),
        transport ==> post.notices.offline == Some(message),
        !transport ==> post.notices.offline == pre.notices.offline,
{
}

/// A sending that was refused leaves the message as it was written, ready to be sent again.
pub proof fn a_refused_sending_keeps_the_message(
    pre: Shell,
    message: String,
    transport: bool,
    now: u64,
    post: Shell,
)
    requires
        absorbed(pre, Reply::Failed { what: "envoi", message, transport }, now, post),
    ensures
        post.writing == (Writing { sending: false, ..pre.writing }),
{
}

/// Only a writing that was made closes the forms of the settings page: no other answer touches
/// what was typed in them, but that a consent under way takes the place of its form.
pub proof fn only_a_success_closes_the_forms(
    pre: Shell,
    page: settings::Page,
    reply: Reply,
    now: u64,
    post: Shell,
)
    requires
        pre.panels.settings == Some(page),
        absorbed(pre, reply, now, post),
        !(reply is AccountWritten),
    ensures
        post.panels.settings matches Some(after) && after.declaring == page.declaring
            && after.submitting == page.submitting && (reply is ConsentUrl || after.consenting
            == page.consenting),
{
}

/// A page of another folder, or behind another cursor, changes no row and no cursor.
pub proof fn a_late_page_is_dropped(
    pre: Shell,
    folder: i64,
    after: Option<String>,
    page: Page,
    now: u64,
    post: Shell,
)
    requires
        !is_head(pre.list, folder, after),
        !is_next(pre.list, folder, after),
        absorbed(pre, Reply::Page { folder, after, page }, now, post),
    ensures
        post == (Shell { list: List { loading_page: false, ..pre.list }, ..pre }),
{
}

/// Suggestions for an earlier key, and the source of something else than what the window shows,
/// are dropped.
pub proof fn a_late_answer_is_dropped(
    pre: Shell,
    token: u64,
    suggestions: Vec<crate::dto::Suggestion>,
    of: SourceOf,
    found: Option<MessageSource>,
    now: u64,
    completed: Shell,
    after: Shell,
)
    requires
        token != pre.writing.suggest_token,
        pre.panels.source matches Some(view) ==> view.of != of,
        absorbed(pre, Reply::Complete { token, found: suggestions }, now, completed),
        absorbed(pre, Reply::Source { of, found }, now, after),
    ensures
        completed == pre,
        after == pre,
{
}

/// A change of the store closes nothing: what is read, selected, searched and written stays, and
/// so do the rows of the open folder.
pub proof fn a_change_closes_nothing(pre: Shell, now: u64, post: Shell)
    requires
        absorbed(pre, Reply::Changed, now, post),
    ensures
        post.reader == pre.reader,
        post.writing == pre.writing,
        post.panels == pre.panels,
        post.notices == pre.notices,
        post.list.current == pre.list.current,
        post.list.selected == pre.list.selected,
        post.list.rows == pre.list.rows,
        post.list.cursor == pre.list.cursor,
        post.list.results == pre.list.results,
{
}

/// An outage is shown until the transport is back: no other answer ends it.
pub proof fn only_a_return_ends_an_outage(pre: Shell, reply: Reply, now: u64, post: Shell)
    requires
        pre.notices.offline is Some,
        absorbed(pre, reply, now, post),
    ensures
        post.notices.offline is None <==> reply is Online,
{
}

/// Once the cache was purged, no answer has anything written to it.
pub proof fn a_purged_cache_stays_empty(pre: Shell, reply: Reply, now: u64, post: Shell)
    requires
        pre.cache.disabled,
        absorbed(pre, reply, now, post),
    ensures
        post.cache == pre.cache,
{
}

/// No answer closes the message that is being written, but that it is in the queue.
pub proof fn only_the_queue_closes_the_message(pre: Shell, reply: Reply, now: u64, post: Shell)
    requires
        pre.writing.compose is Some,
        absorbed(pre, reply, now, post),
    ensures
        post.writing.compose is None <==> reply is Queued,
{
}

/// The draft of a message is deleted only once the message is in the queue.
pub proof fn a_draft_outlives_its_message(pre: Shell, reply: Reply, id: i64)
    requires
        asks_of(pre, reply).contains(Request::DeleteDraft { id }),
    ensures
        reply is Queued,
        pre.writing.compose matches Some(compose) && compose.draft == Some(id),
{
    let asked = asks_of(pre, reply);
    let k = choose|k: int| 0 <= k < asked.len() && asked[k] == Request::DeleteDraft { id };
    assert(asked[k] is DeleteDraft);
}

} // verus!
