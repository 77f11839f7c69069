use mailclient::actions::Keys;
use mailclient::bench::Bench;
use mailclient::compose::Compose;
use mailclient::dto::{Account, Attached, Attachment, Draft, Message, Page, Row, Source};
use mailclient::protocol::{Decision, Opened, Reply, Request, SourceOf};
use mailclient::settings;
use mailclient::shell::{Field, Shell};
use mailclient::signature::{Editor, Outcome};
use mailclient::writing::{address, forwarded_subject, other, Answer, Pending, Threading};

fn row(id: i64) -> Row {
    Row {
        id,
        date: 1_789_041_600,
        from: "Jean@X.fr".to_owned(),
        from_name: None,
        subject: "Bonjour".to_owned(),
        unread: false,
        flagged: false,
        has_attachments: false,
    }
}

fn account(id: i64, address: &str, can_send: bool) -> Account {
    Account {
        id,
        name: format!("compte {id}"),
        address: Some(address.to_owned()),
        can_send,
        enabled: true,
    }
}

fn draft(id: Option<i64>) -> Draft {
    Draft {
        id,
        account: 1,
        to: "a@b.fr".to_owned(),
        cc: String::new(),
        bcc: "c@b.fr".to_owned(),
        subject: "s".to_owned(),
        body: "corps".to_owned(),
        in_reply_to: None,
        references: vec!["<r>".to_owned()],
        sign: false,
        attachments: Vec::new(),
        label: "l".to_owned(),
        updated_at: 0,
    }
}

fn keys() -> Keys {
    Keys {
        down: false,
        up: false,
        page_down: false,
        page_up: false,
        open: false,
        search: false,
        escape: false,
    }
}

fn pending() -> Pending {
    Pending {
        active: None,
        insert: None,
        detach: None,
        send: false,
        edit_signature: false,
        dropped: Vec::new(),
    }
}

fn threading() -> Threading {
    Threading {
        in_reply_to: Some("<m>".to_owned()),
        references: vec!["<m>".to_owned()],
    }
}

fn reading(pieces: usize) -> Shell {
    let mut it = Shell::new(4, Bench::Off, None, None);
    let mut out = Vec::new();
    it.absorb(
        Reply::Bootstrap {
            folders: Vec::new(),
            folder: 7,
            page: Page {
                rows: (0..50).map(row).collect(),
                next: None,
            },
        },
        0,
        &mut out,
    );
    it.absorb(
        Reply::Accounts(vec![
            account(1, "lecture@x.fr", false),
            account(2, "moi@x.fr", true),
        ]),
        0,
        &mut out,
    );
    it.absorb(
        Reply::Open(Some(Opened {
            message: Message {
                row: row(3),
                message_id: Some("<m>".to_owned()),
                references: Vec::new(),
                to: vec![
                    "Moi <MOI@x.fr>".to_owned(),
                    "Paul <paul@y.fr>".to_owned(),
                    "jean@x.fr".to_owned(),
                ],
                body: "corps".to_owned(),
                body_truncated: false,
                html: None,
                attachments: (0..pieces)
                    .map(|_| Attachment {
                        name: None,
                        mime: "a/b".to_owned(),
                        size: 1,
                    })
                    .collect(),
                folders: Vec::new(),
                thread: None,
                invitation: None,
            },
            body: Vec::new(),
        })),
        0,
        &mut out,
    );
    it
}

#[test]
fn a_reply_to_everybody_leaves_oneself_and_the_sender_out_of_the_copy() {
    let mut it = reading(0);
    let mut out = Vec::new();
    it.answer(Answer::Everyone, threading(), "Re: Bonjour".to_owned(), &mut out);
    let compose = it.writing.compose.as_ref().unwrap();
    assert_eq!(compose.account, 2);
    assert_eq!(compose.to, "Jean@X.fr");
    assert_eq!(compose.cc, "Paul <paul@y.fr>");
    assert_eq!(compose.subject, "Re: Bonjour");
    assert_eq!(compose.in_reply_to.as_deref(), Some("<m>"));
    assert!(compose.text.contains("> corps"));
    it.answer(Answer::Sender, threading(), "Re: Bonjour".to_owned(), &mut out);
    assert_eq!(it.writing.compose.as_ref().unwrap().cc, "");
    assert!(out.is_empty());
}

#[test]
fn a_forward_takes_its_files_along() {
    let mut it = reading(2);
    let mut out = Vec::new();
    it.answer(Answer::Forward, threading(), String::new(), &mut out);
    assert!(matches!(out[0], Request::StagePart { id: 3, part: 0 }));
    assert!(matches!(out[1], Request::StagePart { id: 3, part: 1 }));
    assert_eq!(
        it.notices.status.as_deref(),
        Some("Transfert : reprise de 2 pièce(s) jointe(s) en cours…")
    );
    let compose = it.writing.compose.as_ref().unwrap();
    assert_eq!(compose.subject, "Tr: Bonjour");
    assert_eq!(compose.to, "");
    assert_eq!(compose.in_reply_to, None);
    out.clear();
    it.answer(Answer::Source, threading(), String::new(), &mut out);
    assert!(matches!(
        out[0],
        Request::Source {
            of: SourceOf::Message(3)
        }
    ));
}

#[test]
fn nobody_to_send_for_is_said() {
    let mut it = reading(0);
    it.writing.accounts.clear();
    it.start_compose();
    assert!(it.writing.compose.is_none());
    assert_eq!(
        it.notices.status.as_deref(),
        Some("Aucun compte ne peut envoyer. `mail account submission --account N --host …` pour en configurer un.")
    );
    let mut out = Vec::new();
    it.answer(Answer::Sender, threading(), String::new(), &mut out);
    assert_eq!(
        it.notices.status.as_deref(),
        Some("Aucun compte ne peut envoyer.")
    );
}

#[test]
fn the_subject_of_a_forward_is_marked_once() {
    assert_eq!(forwarded_subject("Tr: x", "tr: x"), "Tr: x");
    assert_eq!(forwarded_subject("x", "x"), "Tr: x");
}

#[test]
fn everybody_else_is_in_copy_of_a_reply_to_all() {
    let mut it = reading(0);
    it.writing.accounts = vec![account(1, "anne@x.fr", true)];
    if let Some(message) = it.reader.message.as_mut() {
        message.row.from = "jean@y.fr".to_owned();
        message.to = vec![
            "ANNE@x.fr".to_owned(),
            "marianne@x.fr".to_owned(),
            "Jean <Jean@Y.fr>".to_owned(),
        ];
    }
    let mut out = Vec::new();
    it.answer(Answer::Everyone, threading(), "Re: Bonjour".to_owned(), &mut out);
    let compose = it.writing.compose.as_ref().unwrap();
    assert_eq!(compose.to, "jean@y.fr");
    assert_eq!(compose.cc, "marianne@x.fr");
}

#[test]
fn an_address_is_compared_as_a_whole() {
    assert_eq!(address("Moi <moi@x.fr>"), "moi@x.fr");
    assert_eq!(address(" moi@x.fr "), "moi@x.fr");
    assert_eq!(address("\"A <b>\" <a@x.fr>"), "a@x.fr");
    assert_eq!(address("a < b"), "a < b");
    assert!(!other("moi@x.fr", &vec!["moi@x.fr".to_owned()], "z"));
    assert!(other("a@b.fr", &vec!["moi@x.fr".to_owned()], "c@d.fr"));
    assert!(!other("é@x.fr", &Vec::new(), "é@x.fr"));
    assert!(other("marianne@x.fr", &vec!["anne@x.fr".to_owned()], "jean@y.fr"));
}

#[test]
fn a_message_is_sent_once_and_kept_until_then() {
    let mut it = reading(0);
    let mut out = Vec::new();
    it.start_compose();
    let mut compose = it.writing.compose.as_ref().unwrap().copy();
    compose.to = "a@b.fr".to_owned();
    assert!(it.ready(&compose));
    let send = Pending {
        send: true,
        ..pending()
    };
    it.settle_compose(compose.copy(), send, true, &mut out);
    assert!(matches!(&out[0], Request::Send(sent) if sent.to == "a@b.fr"));
    assert!(it.writing.sending);
    assert!(!it.ready(&compose));
    out.clear();
    it.settle_compose(compose, pending(), false, &mut out);
    assert!(matches!(&out[0], Request::SaveDraft(kept) if kept.to == "a@b.fr"));
    assert!(it.writing.compose.is_none());
}

#[test]
fn the_window_of_the_message_asks_for_a_signature_once() {
    let mut it = reading(0);
    let mut out = Vec::new();
    it.prepare_compose(2, &mut out);
    it.prepare_compose(2, &mut out);
    assert_eq!(out.len(), 1);
    assert!(matches!(out[0], Request::Signature { account: 2 }));
}

#[test]
fn files_are_dropped_and_taken_off() {
    let mut it = reading(0);
    let mut out = Vec::new();
    let compose = Compose {
        account: 2,
        attachments: vec![
            Attached {
                filename: "a".to_owned(),
                blob: "1".to_owned(),
                size: 1,
            },
            Attached {
                filename: "b".to_owned(),
                blob: "2".to_owned(),
                size: 2,
            },
        ],
        ..Compose::default()
    };
    let gesture = Pending {
        detach: Some(0),
        edit_signature: true,
        dropped: vec!["/tmp/c.pdf".to_owned()],
        ..pending()
    };
    it.settle_compose(compose, gesture, true, &mut out);
    let kept = it.writing.compose.as_ref().unwrap();
    assert_eq!(kept.attachments.len(), 1);
    assert_eq!(kept.attachments[0].filename, "b");
    assert!(matches!(&out[0], Request::Attach { path } if path == "/tmp/c.pdf"));
    assert_eq!(
        it.notices.status.as_deref(),
        Some("/tmp/c.pdf : rangement en cours…")
    );
    assert_eq!(it.writing.editor.as_ref().map(|it| it.account), Some(2));
}

#[test]
fn suggestions_are_asked_for_once_per_fragment() {
    let mut it = reading(0);
    let mut out = Vec::new();
    let mut compose = Compose {
        to: "jean@x.fr, mar".to_owned(),
        ..Compose::default()
    };
    let typed = Some((Field::To, compose.to.clone()));
    it.writing
        .settle_completion(&mut compose, typed.clone(), None, &mut out);
    it.writing
        .settle_completion(&mut compose, typed, None, &mut out);
    assert_eq!(out.len(), 1);
    assert!(matches!(&out[0], Request::Complete { prefix, token: 1 } if prefix == "mar"));
    it.writing.settle_completion(
        &mut compose,
        None,
        Some((Field::To, "marie@y.fr".to_owned())),
        &mut out,
    );
    assert_eq!(compose.to, "jean@x.fr, marie@y.fr, ");
    assert_eq!(it.writing.suggesting, None);
}

#[test]
fn a_draft_reopens_as_it_was_and_keeps_the_open_message() {
    let mut it = reading(0);
    let mut out = Vec::new();
    it.writing.drafts = vec![draft(Some(5)), draft(None)];
    it.writing.compose = Some(Compose {
        subject: "en cours".to_owned(),
        ..Compose::default()
    });
    it.panels.show_drafts = true;
    it.open_draft(0, &mut out);
    assert!(matches!(&out[0], Request::SaveDraft(kept) if kept.subject == "en cours"));
    let compose = it.writing.compose.as_ref().unwrap();
    assert_eq!(compose.draft, Some(5));
    assert_eq!(compose.bcc, "c@b.fr");
    assert!(!compose.sign);
    assert!(!it.panels.show_drafts);
    out.clear();
    it.delete_draft(0, &mut out);
    assert_eq!(it.writing.compose.as_ref().unwrap().draft, None);
    assert!(matches!(out[0], Request::DeleteDraft { id: 5 }));
    assert!(matches!(out[1], Request::Drafts));
    out.clear();
    it.open_draft(9, &mut out);
    it.delete_draft(1, &mut out);
    assert!(out.is_empty());
}

#[test]
fn the_keyboard_walks_the_list() {
    let mut it = reading(0);
    let mut out = Vec::new();
    it.list.selected = None;
    it.keyboard(Keys { down: true, ..keys() }, &mut out);
    assert_eq!(it.list.selected, Some(0));
    it.keyboard(Keys { page_down: true, ..keys() }, &mut out);
    assert_eq!(it.list.selected, Some(20));
    it.keyboard(Keys { up: true, ..keys() }, &mut out);
    assert_eq!(it.list.selected, Some(19));
    it.keyboard(Keys { page_up: true, ..keys() }, &mut out);
    assert_eq!(it.list.selected, Some(0));
    out.clear();
    it.keyboard(Keys { open: true, ..keys() }, &mut out);
    assert!(matches!(out[0], Request::Open { id: 0, .. }));
    it.list.results = Some(Vec::new());
    it.list.query = "q".to_owned();
    it.keyboard(
        Keys {
            escape: true,
            search: true,
            ..keys()
        },
        &mut out,
    );
    assert!(it.list.results.is_none() && it.list.focus_search);
    assert_eq!(it.list.query, "");
}

#[test]
fn panels_ask_when_they_open() {
    let mut it = reading(0);
    let mut out = Vec::new();
    it.toggle_outbox(&mut out);
    it.toggle_drafts(&mut out);
    it.toggle_import(&mut out);
    assert_eq!(out.len(), 4);
    assert!(matches!(out[0], Request::Outbox));
    assert!(matches!(out[1], Request::Drafts));
    it.toggle_outbox(&mut out);
    assert_eq!(out.len(), 4);
    out.clear();
    it.panels.sources = vec![Source {
        id: 2,
        path: "p".to_owned(),
    }];
    it.start_import(2, &mut out);
    it.start_index(&mut out);
    it.decide(4, Decision::Accept, &mut out);
    it.retry(5, &mut out);
    assert!(matches!(out[0], Request::StartImport { source: 2 }));
    assert!(matches!(out[1], Request::Jobs));
    assert!(matches!(out[2], Request::StartIndex));
    assert!(matches!(
        out[4],
        Request::Decide {
            id: 4,
            decision: Decision::Accept
        }
    ));
    assert!(matches!(out[6], Request::Retry { id: 5 }));
    out.clear();
    it.show_outgoing(8, &mut out);
    assert_eq!(it.panels.source.as_ref().unwrap().title, "envoi #8");
}

#[test]
fn the_settings_page_settles_what_it_asks() {
    let mut it = reading(0);
    let mut out = Vec::new();
    it.settle_settings(
        settings::Page::opened(false),
        settings::Outcome::Sync(3),
        true,
        &mut out,
    );
    assert!(matches!(out[0], Request::StartSync { account: 3 }));
    assert!(it.panels.show_import && it.panels.settings.is_some());
    it.settle_settings(
        settings::Page::opened(false),
        settings::Outcome::Idle,
        false,
        &mut out,
    );
    assert!(it.panels.settings.is_none());
}

#[test]
fn an_editor_saves_and_waits() {
    let mut it = reading(0);
    let mut out = Vec::new();
    it.settle_signature(Editor::new(2, None), Outcome::Save, true, &mut out);
    assert!(matches!(
        &out[0],
        Request::SetSignature {
            account: 2,
            signature: Some(_)
        }
    ));
    assert!(it.writing.editor.as_ref().unwrap().saving);
    it.settle_signature(Editor::new(2, None), Outcome::Cancel, true, &mut out);
    assert!(it.writing.editor.is_none());
    it.settle_signature(Editor::new(2, None), Outcome::Idle, true, &mut out);
    assert!(it.writing.editor.is_some());
    it.settle_signature(Editor::new(2, None), Outcome::Idle, false, &mut out);
    assert!(it.writing.editor.is_none());
}
