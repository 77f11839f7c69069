use mailclient::bench::{Bench, Phase, Probe, Verdict};
use mailclient::body::{Block, Kind};
use mailclient::cache::Snapshot;
use mailclient::compose::Compose;
use mailclient::dto::{
    Account, Attached, Attachment, Folder, Hello, Job, Message, Page, Queued, Results, Row,
    Suggestion,
};
use mailclient::protocol::{Opened, Reply, Request, SourceOf};
use mailclient::settings;
use mailclient::shell::{first_requests, Shell, BODY_STEP, CACHE_EVERY};
use mailclient::signature::{Document, Editor};

fn row(id: i64) -> Row {
    Row {
        id,
        date: 1_789_041_600,
        from: format!("p{id}@x.fr"),
        from_name: None,
        subject: format!("sujet {id}"),
        unread: false,
        flagged: false,
        has_attachments: false,
    }
}

fn folder(id: i64, kind: &str, total: u64) -> Folder {
    Folder {
        id,
        account: "a".to_owned(),
        path: format!("d{id}"),
        kind: kind.to_owned(),
        total,
        unread: 0,
    }
}

fn message(id: i64, thread: Option<i64>) -> Message {
    Message {
        row: row(id),
        message_id: None,
        references: Vec::new(),
        to: vec!["moi@x.fr".to_owned()],
        body: "corps".to_owned(),
        body_truncated: false,
        html: None,
        attachments: Vec::<Attachment>::new(),
        folders: Vec::new(),
        thread,
        invitation: None,
    }
}

fn shell() -> Shell {
    Shell::new(4, Bench::Off, None, None)
}

fn loaded() -> Shell {
    let mut it = shell();
    let mut out = Vec::new();
    it.absorb(
        Reply::Bootstrap {
            folders: vec![folder(7, "inbox", 10)],
            folder: 7,
            page: Page {
                rows: vec![row(3), row(2)],
                next: Some("c1".to_owned()),
            },
        },
        0,
        &mut out,
    );
    assert!(out.is_empty());
    it
}

fn failed(what: &'static str, transport: bool) -> Reply {
    Reply::Failed {
        what,
        message: "panne".to_owned(),
        transport,
    }
}

#[test]
fn the_rows_are_asked_for_before_anything_else() {
    let first = first_requests();
    assert!(matches!(first[0], Request::Bootstrap { limit: 100 }));
    assert!(matches!(first[2], Request::Hello));
    assert_eq!(first.len(), 6);
}

#[test]
fn a_seed_is_shown_before_the_service_answers() {
    let seed = Snapshot::new(4, "r".to_owned(), vec![folder(7, "inbox", 1)], Some(7), &vec![row(1)]);
    let it = Shell::new(4, Bench::Off, Some("h".to_owned()), Some(seed));
    assert_eq!(it.list.current, Some(7));
    assert_eq!(it.list.rows.len(), 1);
    assert_eq!(it.reader.body_shown, BODY_STEP);
}

#[test]
fn a_page_follows_the_cursor_it_was_asked_with() {
    let mut it = loaded();
    let mut out = Vec::new();
    it.list.request_page(&mut out);
    match &out[0] {
        Request::Page { folder, after, limit } => {
            assert_eq!((*folder, after.as_deref(), *limit), (7, Some("c1"), 100));
        }
        _ => panic!("a page was expected"),
    }
    it.list.request_page(&mut out);
    assert_eq!(out.len(), 1, "one page at a time");
    it.absorb(
        Reply::Page {
            folder: 7,
            after: Some("c1".to_owned()),
            page: Page {
                rows: vec![row(1)],
                next: None,
            },
        },
        0,
        &mut out,
    );
    assert_eq!(it.list.rows.len(), 3);
    assert!(it.list.exhausted && !it.list.loading_page);
}

#[test]
fn a_late_page_is_dropped() {
    let mut it = loaded();
    let mut out = Vec::new();
    it.absorb(
        Reply::Page {
            folder: 8,
            after: None,
            page: Page {
                rows: vec![row(9)],
                next: None,
            },
        },
        0,
        &mut out,
    );
    assert_eq!(it.list.rows.len(), 2);
    assert!(!it.list.exhausted);
}

#[test]
fn a_change_lays_the_head_over_the_rows() {
    let mut it = loaded();
    let mut out = Vec::new();
    it.absorb(Reply::Changed, 0, &mut out);
    assert_eq!(out.len(), 4);
    assert!(it.list.refreshing_head);
    it.absorb(
        Reply::Page {
            folder: 7,
            after: None,
            page: Page {
                rows: vec![row(4), row(3)],
                next: Some("autre".to_owned()),
            },
        },
        0,
        &mut out,
    );
    let ids: Vec<i64> = it.list.rows.iter().map(|it| it.id).collect();
    assert_eq!(ids, vec![4, 3, 2]);
    assert_eq!(it.list.cursor.as_deref(), Some("c1"));
}

#[test]
fn opening_a_message_asks_for_it_and_marks_it_read() {
    let mut it = loaded();
    let mut out = Vec::new();
    it.open_message(3, false, &mut out);
    assert!(matches!(
        out[0],
        Request::Open {
            id: 3,
            remote_images: false
        }
    ));
    assert!(matches!(out[1], Request::MarkRead { id: 3, folder: 7 }));
    out.clear();
    it.absorb(
        Reply::Open(Some(Opened {
            message: message(3, Some(1)),
            body: vec![Block {
                kind: Kind::Paragraph,
                runs: Vec::new(),
            }],
        })),
        0,
        &mut out,
    );
    assert!(matches!(out[0], Request::Thread { id: 3 }));
    assert!(!it.reader.opening);
    it.absorb(Reply::Open(None), 0, &mut out);
    assert!(it.reader.message.is_none());
    assert_eq!(
        it.reader.open_error.as_deref(),
        Some("ce message n'existe plus dans le store")
    );
    it.show_more();
    assert_eq!(it.reader.body_shown, 2 * BODY_STEP);
}

#[test]
fn a_failure_erases_nothing() {
    let mut it = loaded();
    let mut out = Vec::new();
    it.open_message(3, false, &mut out);
    it.absorb(failed("message", true), 0, &mut out);
    assert_eq!(it.list.rows.len(), 2);
    assert_eq!(it.notices.offline.as_deref(), Some("panne"));
    assert_eq!(it.notices.status.as_deref(), Some("message : panne"));
    assert_eq!(it.reader.open_error.as_deref(), Some("panne"));
    it.absorb(failed("envoi", false), 0, &mut out);
    assert_eq!(it.notices.offline.as_deref(), Some("panne"));
    it.absorb(Reply::Online, 0, &mut out);
    assert_eq!(it.notices.offline, None);
}

#[test]
fn only_the_queue_closes_the_message() {
    let mut it = loaded();
    it.writing.compose = Some(Compose {
        to: "a@b.fr".to_owned(),
        draft: Some(9),
        ..Compose::default()
    });
    it.writing.sending = true;
    let mut out = Vec::new();
    it.absorb(failed("envoi", false), 0, &mut out);
    assert!(it.writing.compose.is_some() && !it.writing.sending);
    it.absorb(
        Reply::Queued(Queued {
            id: 12,
            recipients: vec!["a@b.fr".to_owned()],
            size: 300,
            hold: 10,
        }),
        0,
        &mut out,
    );
    assert!(it.writing.compose.is_none());
    assert_eq!(it.notices.cancellable, Some(12));
    assert_eq!(
        it.notices.status.as_deref(),
        Some("Message en file d'envoi (1 destinataire(s), 300 octets). Il partira dans 10 s, même si vous fermez la fenêtre.")
    );
    assert!(matches!(out[0], Request::DeleteDraft { id: 9 }));
    assert!(matches!(out[1], Request::Outbox));
    assert!(matches!(out[2], Request::Drafts));
    out.clear();
    it.cancel_sending(&mut out);
    assert!(matches!(out[0], Request::Cancel { id: 12 }));
    it.absorb(Reply::Cancelled(false), 0, &mut out);
    assert_eq!(
        it.notices.status.as_deref(),
        Some("Trop tard : le message était déjà en cours de remise.")
    );
    it.dismiss_status();
    assert_eq!(it.notices.status, None);
}

#[test]
fn another_protocol_is_fatal() {
    let mut it = shell();
    let mut out = Vec::new();
    it.absorb(
        Reply::Hello(Hello {
            version: "1".to_owned(),
            protocol: 5,
            messages: 1,
            search_available: true,
            revision: "r".to_owned(),
        }),
        0,
        &mut out,
    );
    assert!(it.fatal.is_some() && it.hello.is_none());
}

#[test]
fn the_first_folder_opens_by_itself() {
    let mut it = shell();
    let mut out = Vec::new();
    it.absorb(
        Reply::Folders(vec![folder(1, "sent", 5), folder(2, "inbox", 3)]),
        0,
        &mut out,
    );
    assert_eq!(it.list.current, Some(2));
    assert!(matches!(out[0], Request::Page { folder: 2, .. }));
    out.clear();
    it.open_folder(1, &mut out);
    assert_eq!(it.list.current, Some(1));
    assert!(it.list.rows.is_empty());
}

#[test]
fn a_search_replaces_the_rows_until_it_is_cleared() {
    let mut it = loaded();
    let mut out = Vec::new();
    it.list.query = "  facture ".to_owned();
    it.run_search(&mut out);
    match &out[0] {
        Request::Search { query, limit } => assert_eq!((query.as_str(), *limit), ("facture", 200)),
        _ => panic!("a search was expected"),
    }
    it.absorb(
        Reply::Search(Results {
            rows: vec![row(42)],
            count: 1,
            truncated: false,
            search_available: true,
        }),
        0,
        &mut out,
    );
    assert_eq!(it.list.visible().len(), 1);
    assert_eq!(it.list.total(), 1);
    it.clear_search();
    assert_eq!(it.list.visible().len(), 2);
    assert_eq!(it.list.total(), 10);
    assert_eq!(it.list.query, "");
    it.absorb(
        Reply::Search(Results {
            rows: vec![row(42)],
            count: 1,
            truncated: false,
            search_available: false,
        }),
        0,
        &mut out,
    );
    assert_eq!(
        it.notices.status.as_deref(),
        Some("l'index plein texte est absent : `mail index` le construit")
    );
}

#[test]
fn a_late_answer_is_dropped() {
    let mut it = loaded();
    it.writing.suggest_token = 5;
    let mut out = Vec::new();
    let found = |label: &str| {
        vec![Suggestion {
            label: label.to_owned(),
            seen_to: 1,
            seen_from: 2,
        }]
    };
    it.absorb(
        Reply::Complete {
            token: 4,
            found: found("vieux"),
        },
        0,
        &mut out,
    );
    assert!(it.writing.suggestions.is_empty());
    it.absorb(
        Reply::Complete {
            token: 5,
            found: found("neuf"),
        },
        0,
        &mut out,
    );
    assert_eq!(it.writing.suggestions[0].label, "neuf");
    it.open_source(SourceOf::Message(3), "titre".to_owned(), &mut out);
    it.absorb(
        Reply::Source {
            of: SourceOf::Outgoing(3),
            found: None,
        },
        0,
        &mut out,
    );
    assert!(it.panels.source.as_ref().unwrap().error.is_none());
    it.absorb(
        Reply::Source {
            of: SourceOf::Message(3),
            found: None,
        },
        0,
        &mut out,
    );
    assert_eq!(
        it.panels.source.as_ref().unwrap().error.as_deref(),
        Some("introuvable, ou son contenu manque du magasin")
    );
    it.close_source();
    assert!(it.panels.source.is_none());
}

#[test]
fn only_a_success_closes_the_forms() {
    let mut it = loaded();
    let mut out = Vec::new();
    it.toggle_settings(false, &mut out);
    assert!(matches!(out[0], Request::AccountsDetail));
    it.panels.settings.as_mut().unwrap().declaring = Some(settings::AccountForm::new());
    it.absorb(failed("compte", false), 0, &mut out);
    let page = it.panels.settings.as_ref().unwrap();
    assert!(page.failed && page.declaring.is_some());
    it.absorb(
        Reply::AccountWritten("fait".to_owned()),
        0,
        &mut out,
    );
    let page = it.panels.settings.as_ref().unwrap();
    assert!(!page.failed && page.declaring.is_none());
    assert_eq!(page.message.as_deref(), Some("fait"));
    it.toggle_settings(false, &mut out);
    assert!(it.panels.settings.is_none());
}

#[test]
fn a_signature_closes_the_editor_that_saved_it() {
    let mut it = loaded();
    let mut out = Vec::new();
    let mut editor = Editor::new(1, None);
    editor.saving = true;
    it.writing.editor = Some(editor);
    it.absorb(
        Reply::Signature {
            account: 2,
            found: None,
        },
        0,
        &mut out,
    );
    assert!(it.writing.editor.is_some());
    it.absorb(
        Reply::Signature {
            account: 1,
            found: Some(Document::empty()),
        },
        0,
        &mut out,
    );
    assert!(it.writing.editor.is_none());
    assert_eq!(it.notices.status.as_deref(), Some("Signature enregistrée."));
    assert!(it.writing.signatures[&1].is_some());
    assert!(it.writing.signatures[&2].is_none());
}

#[test]
fn an_attachment_goes_to_the_open_message() {
    let mut it = loaded();
    let mut out = Vec::new();
    let file = || Attached {
        filename: "a.pdf".to_owned(),
        blob: "b".to_owned(),
        size: 3,
    };
    it.absorb(Reply::Attached(file()), 0, &mut out);
    assert!(it.writing.compose.is_none());
    it.writing.compose = Some(Compose::default());
    it.absorb(Reply::Attached(file()), 0, &mut out);
    assert_eq!(it.writing.compose.as_ref().unwrap().attachments.len(), 1);
    it.absorb(Reply::Saved(Some(4)), 0, &mut out);
    assert_eq!(it.writing.compose.as_ref().unwrap().draft, Some(4));
}

#[test]
fn the_cache_is_written_now_and_then_and_never_after_a_purge() {
    let mut it = Shell::new(4, Bench::Off, Some("h".to_owned()), None);
    let mut out = Vec::new();
    let first = |it: &mut Shell, now: u64, out: &mut Vec<Request>| {
        it.absorb(
            Reply::Bootstrap {
                folders: vec![folder(7, "inbox", 10)],
                folder: 7,
                page: Page {
                    rows: vec![row(3)],
                    next: None,
                },
            },
            now,
            out,
        );
    };
    first(&mut it, 1000, &mut out);
    assert!(it.cache.pending.take().is_some());
    first(&mut it, 1000 + CACHE_EVERY - 1, &mut out);
    assert!(it.cache.pending.is_none(), "too soon");
    first(&mut it, 1000 + CACHE_EVERY, &mut out);
    assert!(it.cache.pending.is_some());
    it.purged(mailclient::actions::Purge::Done("/c".to_owned()));
    assert!(it.cache.pending.is_none() && it.cache.disabled);
    first(&mut it, 1_000_000, &mut out);
    assert!(it.cache.pending.is_none());
    assert_eq!(
        it.notices.status.as_deref(),
        Some("cache effacé : /c. Plus rien ne sera écrit jusqu'au prochain lancement.")
    );
}

#[test]
fn tasks_are_polled_while_one_runs() {
    let mut it = loaded();
    let mut out = Vec::new();
    assert!(!it.poll_jobs(0, &mut out));
    it.absorb(
        Reply::Jobs(vec![Job {
            id: 1,
            kind: "import".to_owned(),
            state: "running".to_owned(),
            done: 1,
            total: 2,
            message: None,
        }]),
        0,
        &mut out,
    );
    assert!(it.poll_jobs(0, &mut out));
    assert_eq!(out.len(), 1);
    assert!(it.poll_jobs(499, &mut out));
    assert_eq!(out.len(), 1);
    it.poll_jobs(500, &mut out);
    assert_eq!(out.len(), 2);
    it.absorb(Reply::Started, 0, &mut out);
    assert_eq!(it.panels.jobs_polled, None);
}

#[test]
fn a_probe_of_an_outage_counts_a_clean_failure() {
    let mut it = loaded();
    it.trial.state.phase = Phase::Probing;
    let mut out = Vec::new();
    it.absorb(failed("message", true), 0, &mut out);
    it.absorb(failed("recherche", false), 0, &mut out);
    assert_eq!(it.trial.probe.open, Some(Verdict::CleanFailure));
    assert_eq!(it.trial.probe.search, Some(Verdict::Refused));
    assert!(it.trial.probe.complete());
    assert_eq!(Probe::said(Some(Verdict::CleanFailure)), "echec_propre");
    assert_eq!(Probe::said(None), "sans réponse");
}

#[test]
fn accounts_and_sources_are_kept() {
    let mut it = loaded();
    let mut out = Vec::new();
    it.absorb(
        Reply::Accounts(vec![Account {
            id: 1,
            name: "n".to_owned(),
            address: None,
            can_send: true,
            enabled: true,
        }]),
        0,
        &mut out,
    );
    assert_eq!(it.writing.default_sender(), Some(1));
    assert_eq!(Bench::named(Some("scroll")), Bench::Scroll);
    assert_eq!(Bench::named(Some("autre")), Bench::Off);
    assert_eq!(Bench::named(None), Bench::Off);
}

#[test]
fn a_folder_is_asked_for_while_a_page_of_another_is_on_its_way() {
    let mut it = loaded();
    let mut out = Vec::new();
    it.list.request_page(&mut out);
    assert!(it.list.loading_page);
    out.clear();
    it.open_folder(9, &mut out);
    assert_eq!(it.list.current, Some(9));
    assert!(it.list.rows.is_empty() && it.list.loading_page);
    assert_eq!(out.len(), 1);
    assert!(matches!(
        &out[0],
        Request::Page { folder: 9, after: None, limit: 100 }
    ));
}
