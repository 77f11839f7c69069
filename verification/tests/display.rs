use mailclient::bench::Bench;
use mailclient::body::{draw, image_label, Drawing, ImageSource, Kind};
use mailclient::compose::Compose;
use mailclient::display::{
    appointment, body_drawn, drafts_label, folder_lines, header, images_label, list_counter,
    list_title, messages_label, outbox_label, row_sender, source_cut, source_notices,
    thread_heading, thread_label, trackers_label, who, ATTENDEES_SHOWN,
};
use mailclient::dto::{
    Account, Attached, Attachment, Draft, Folder, Hello, Html, Invitation, Job, Message,
    MessageSource, Outgoing, Participant, Row, Suggestion, Tracker,
};
use mailclient::panes::{
    account_label, answers, attached_hint, attached_label, compose_title, current_account,
    draft_lines, encoded, footer, job_label, no_submission, outbox_view, purge_label, reader_view,
    proposes, suggestion_hint, top_bar, unsendable, ReaderView, OUTBOX_HISTORY,
};
use mailclient::shell::{Field, Shell};

fn row(id: i64, name: Option<&str>) -> Row {
    Row {
        id,
        date: 1_789_041_600,
        from: "a@b.fr".to_owned(),
        from_name: name.map(ToOwned::to_owned),
        subject: "Le sujet".to_owned(),
        unread: true,
        flagged: false,
        has_attachments: false,
    }
}

fn line(id: i64, state: &str, doubtful: bool) -> Outgoing {
    Outgoing {
        id,
        state: state.to_owned(),
        doubtful,
        resendable: state == "failed",
        recipients: vec!["x@y.fr".to_owned(), "z@y.fr".to_owned()],
        last_error: Some("refus".to_owned()),
    }
}

fn a_source(body: &str) -> MessageSource {
    MessageSource {
        headers: "From: a@b.c\nSubject: essai\n".to_owned(),
        body: body.to_owned(),
        total: 42,
        headers_truncated: false,
        body_truncated: false,
        invalid_sequences: 0,
        escaped_controls: 0,
    }
}

fn invitation(attendees: usize) -> Invitation {
    Invitation {
        kind: "invitation".to_owned(),
        status: None,
        summary: Some("Réunion".to_owned()),
        start_wall: Some("10:00".to_owned()),
        end_wall: Some("11:00".to_owned()),
        zone: Some("Europe/Paris".to_owned()),
        location: None,
        organizer: Some(Participant {
            name: Some("Marie".to_owned()),
            address: Some("m@x.fr".to_owned()),
            answer: "acceptée".to_owned(),
            required: true,
        }),
        attendees: (0..attendees)
            .map(|rank| Participant {
                name: None,
                address: Some(format!("p{rank}@x.fr")),
                answer: "en attente".to_owned(),
                required: rank > 0,
            })
            .collect(),
        recurrence: None,
        urls: vec!["https://exemple.fr".to_owned()],
        caveats: vec!["heure flottante".to_owned()],
        extra_events: 2,
    }
}

fn account(id: i64) -> Account {
    Account {
        id,
        name: "Nom".to_owned(),
        address: if id == 1 {
            Some("m@x.fr".to_owned())
        } else {
            None
        },
        can_send: id == 1,
        enabled: true,
    }
}

#[test]
fn the_source_view_draws_every_reserve_without_panicking() {
    let states = [
        a_source("corps"),
        MessageSource {
            headers_truncated: true,
            body_truncated: true,
            invalid_sequences: 3,
            escaped_controls: 2,
            total: 48 * 1024 * 1024,
            ..a_source("corps tronqué")
        },
        MessageSource {
            headers: String::new(),
            ..a_source("")
        },
    ];
    let drawn: Vec<usize> = states.iter().map(|it| source_notices(it).len()).collect();
    assert_eq!(drawn, vec![0, 3, 0]);
    assert_eq!(source_cut(&states[0], "42 o"), None);
    assert_eq!(
        source_cut(&states[1], "48 Mio").as_deref(),
        Some("corps tronqué — le message fait 48 Mio")
    );
    assert_eq!(
        source_notices(&states[1])[0],
        "3 séquence(s) non UTF-8, rendues par « \u{fffd} »"
    );
}

#[test]
fn a_doubt_goes_before_what_waits() {
    assert_eq!(outbox_label(&Vec::new()), "File");
    let waiting = vec![line(1, "queued", false), line(2, "sending", false)];
    assert_eq!(outbox_label(&waiting), "File (2)");
    let doubtful = vec![line(1, "queued", false), line(2, "committing", true)];
    assert_eq!(outbox_label(&doubtful), "File ⚠ 1");
    assert_eq!(drafts_label(0), "Brouillons");
    assert_eq!(drafts_label(3), "Brouillons (3)");
}

#[test]
fn the_queue_shows_all_that_waits_and_a_few_that_left() {
    let mut queue = vec![line(1, "failed", false), line(2, "committing", true)];
    for id in 10..18 {
        queue.push(line(id, "sent", false));
    }
    let view = outbox_view(&queue);
    assert_eq!(view.open.len(), 2);
    assert_eq!(view.open[0].label, "échoué → x@y.fr, z@y.fr");
    assert_eq!(view.open[0].error.as_deref(), Some("refus"));
    assert!(view.open[0].resendable);
    assert_eq!(view.open[1].label, "→ x@y.fr, z@y.fr");
    assert_eq!(view.open[1].error, None);
    assert_eq!(view.sent.len(), OUTBOX_HISTORY);
    assert_eq!(view.sent[0].0, 17);
    assert_eq!(view.sent[0].1, "envoyé → x@y.fr, z@y.fr");
    assert_eq!(view.more.as_deref(), Some("… et 3 autres envoyés"));
}

#[test]
fn folders_are_grouped_by_account() {
    let folder = |id: i64, account: &str, path: &str, unread: u64| Folder {
        id,
        account: account.to_owned(),
        path: path.to_owned(),
        kind: "x".to_owned(),
        total: 12,
        unread,
    };
    let lines = folder_lines(&vec![
        folder(1, "a", "INBOX", 3),
        folder(2, "a", "INBOX/Clients/Dupont", 0),
        folder(3, "b", "INBOX", 0),
    ]);
    assert_eq!(lines[0].heading.as_deref(), Some("a"));
    assert_eq!(lines[0].count, "3");
    assert!(lines[0].strong);
    assert_eq!(lines[1].heading, None);
    assert_eq!(lines[1].leaf, "Dupont");
    assert_eq!(lines[1].depth, 2);
    assert_eq!(lines[1].count, "12");
    assert_eq!(lines[2].heading.as_deref(), Some("b"));
}

#[test]
fn the_list_says_what_it_holds() {
    let mut shell = Shell::new(4, Bench::Off, None, None);
    assert_eq!(list_title(&shell.list), "—");
    shell.list.results = Some(vec![row(1, None)]);
    assert_eq!(list_title(&shell.list), "Résultats");
    assert_eq!(list_counter(&shell.list), "1 messages");
    assert_eq!(row_sender(&row(1, Some("  "))), "a@b.fr");
    assert_eq!(row_sender(&row(1, Some("Marie"))), "Marie");
    assert_eq!(thread_heading(1), None);
    assert_eq!(thread_heading(2).as_deref(), Some("Fil — 2 messages"));
    assert_eq!(thread_label(&row(1, None), 2026), "10/09  Le sujet");
}

#[test]
fn the_header_of_a_message_is_exact() {
    let message = Message {
        row: row(1, Some("Marie")),
        message_id: None,
        references: Vec::new(),
        to: vec!["x@y.fr".to_owned()],
        body: String::new(),
        body_truncated: false,
        html: None,
        attachments: vec![Attachment {
            name: None,
            mime: "a/b".to_owned(),
            size: 12,
        }],
        folders: vec!["INBOX".to_owned(), "Tout".to_owned()],
        thread: None,
        invitation: None,
    };
    assert_eq!(
        header(&message),
        vec![
            "Marie <a@b.fr>",
            "à x@y.fr",
            "10/09/2026 12:00",
            "dans INBOX, Tout",
            "📎 sans nom — a/b (12 o)"
        ]
    );
}

#[test]
fn a_body_says_what_it_holds_back() {
    let html = Html {
        blocked_images: 2,
        trackers: vec![
            Tracker {
                host: "t.fr".to_owned(),
            },
            Tracker {
                host: "u.fr".to_owned(),
            },
        ],
    };
    assert_eq!(
        images_label(&html, false).as_deref(),
        Some("Afficher les 2 images")
    );
    assert_eq!(images_label(&html, true), None);
    assert_eq!(
        trackers_label(&html).as_deref(),
        Some("2 traceur(s) neutralisé(s) : t.fr, u.fr")
    );
    assert_eq!(body_drawn(400, 3), (3, None));
    assert_eq!(
        body_drawn(400, 900),
        (400, Some("400 blocs affichés sur 900 —".to_owned()))
    );
    assert_eq!(image_label(" ", None), "[image bloquée]");
    assert_eq!(
        image_label("logo", Some(ImageSource::Remote)),
        "[image distante : logo]"
    );
    assert_eq!(image_label("", Some(ImageSource::Embedded)), "[image embarquée]");
    assert!(matches!(draw(&Kind::Heading(2)), Drawing::Title(2)));
    assert!(matches!(draw(&Kind::Pre), Drawing::Text));
}

#[test]
fn an_appointment_says_what_it_leaves_out() {
    let it = appointment(&invitation(ATTENDEES_SHOWN + 3));
    assert!(!it.cancelled);
    assert_eq!(it.label, "📅 invitation");
    assert_eq!(it.when.as_deref(), Some("10:00 → 11:00"));
    assert_eq!(it.zone.as_deref(), Some("Europe/Paris"));
    assert_eq!(it.organizer.as_deref(), Some("Marie <m@x.fr>"));
    assert_eq!(it.attendees.len(), ATTENDEES_SHOWN);
    assert!(it.attendees[0].optional && !it.attendees[1].optional);
    assert_eq!(it.more.as_deref(), Some("… et 3 autres"));
    assert_eq!(
        it.extra.as_deref(),
        Some("Cette pièce porte 2 rendez-vous de plus, non affichés.")
    );
    let mut cancelled = invitation(0);
    cancelled.status = Some("Cancelled".to_owned());
    let it = appointment(&cancelled);
    assert!(it.cancelled);
    assert_eq!(it.label, "✖ Annulé");
    assert_eq!(it.more, None);
    let nobody = Participant {
        name: None,
        address: None,
        answer: String::new(),
        required: true,
    };
    assert_eq!(who(&nobody), "(inconnu)");
}

#[test]
fn the_bar_follows_the_state() {
    let mut shell = Shell::new(4, Bench::Off, None, None);
    let bar = top_bar(&shell);
    assert!(!bar.can_write && !bar.clears && !bar.busy);
    assert_eq!(bar.messages, None);
    shell.writing.accounts = vec![account(1)];
    shell.hello = Some(Hello {
        version: "1".to_owned(),
        protocol: 4,
        messages: 12,
        search_available: false,
        revision: "r".to_owned(),
    });
    shell.notices.cancellable = Some(3);
    shell.list.searching = true;
    let bar = top_bar(&shell);
    assert!(bar.can_write && bar.busy);
    assert_eq!(bar.messages.as_deref(), Some("12 messages — sans index"));
    assert_eq!(bar.cancel, None);
    shell.notices.status = Some("envoyé".to_owned());
    assert_eq!(top_bar(&shell).cancel, Some(3));
    assert_eq!(
        messages_label(&Hello {
            version: "1".to_owned(),
            protocol: 4,
            messages: 1,
            search_available: true,
            revision: "r".to_owned(),
        }),
        "1 messages"
    );
}

#[test]
fn the_reader_says_why_it_is_empty() {
    let mut shell = Shell::new(4, Bench::Off, None, None);
    assert!(matches!(
        reader_view(&shell.reader),
        ReaderView::Nothing("Aucun message sélectionné.")
    ));
    shell.reader.opening = true;
    assert!(matches!(
        reader_view(&shell.reader),
        ReaderView::Nothing("Ouverture…")
    ));
    shell.reader.open_error = Some("non".to_owned());
    assert!(matches!(reader_view(&shell.reader), ReaderView::Error(words) if words == "non"));
}

#[test]
fn drafts_are_listed_with_their_files() {
    let draft = Draft {
        id: Some(1),
        account: 1,
        to: String::new(),
        cc: String::new(),
        bcc: String::new(),
        subject: String::new(),
        body: String::new(),
        in_reply_to: None,
        references: Vec::new(),
        sign: true,
        attachments: vec![Attached {
            filename: "f".to_owned(),
            blob: "b".to_owned(),
            size: 1,
        }],
        label: "x".repeat(80),
        updated_at: 1_789_041_600,
    };
    let lines = draft_lines(&vec![draft], 2025);
    assert_eq!(lines[0].label.chars().count(), 70);
    assert_eq!(lines[0].date, "10/09/26");
    assert_eq!(lines[0].files.as_deref(), Some("📎 1"));
}

#[test]
fn the_window_of_the_message_says_what_it_will_do() {
    let accounts = vec![account(1), account(2)];
    assert_eq!(account_label(&accounts[0]), "m@x.fr");
    assert_eq!(account_label(&accounts[1]), "Nom");
    assert_eq!(current_account(&accounts, 1), "m@x.fr");
    assert_eq!(current_account(&accounts, 9), "—");
    assert_eq!(
        no_submission(4),
        "Pas de serveur d'envoi. Pour en poser un :\nmail account submission --account 4"
    );
    let mut draft = Compose::default();
    assert_eq!(compose_title(&draft), "Nouveau message");
    assert_eq!(footer(false, &draft), "Au moins un destinataire.");
    draft.in_reply_to = Some("<m>".to_owned());
    draft.to = "a@b.fr".to_owned();
    assert_eq!(compose_title(&draft), "Répondre");
    assert_eq!(
        footer(false, &draft),
        "Le message est mis en file ; il partira même fenêtre fermée."
    );
    assert_eq!(footer(true, &draft), "mise en file…");
    assert_eq!(encoded(3), 4);
    assert_eq!(encoded(4), 6);
    assert_eq!(encoded(u64::MAX), 6_148_914_691_236_517_205);
    let file = Attached {
        filename: "f.pdf".to_owned(),
        blob: "b".to_owned(),
        size: 3,
    };
    assert_eq!(attached_label(&file, "3 o"), "f.pdf (3 o) ×");
    assert_eq!(
        attached_hint("4 o"),
        "4 o une fois encodée — cliquer pour retirer"
    );
    assert_eq!(
        suggestion_hint(&Suggestion {
            label: "l".to_owned(),
            seen_to: 2,
            seen_from: 5
        }),
        "2 envoyé(s), 5 reçu(s)"
    );
    assert!(answers(true, 2).reply_all && !answers(true, 1).reply_all);
    assert!(!answers(false, 2).reply && !answers(false, 2).forward);
    assert_eq!(
        job_label(&Job {
            id: 1,
            kind: "import".to_owned(),
            state: "running".to_owned(),
            done: 0,
            total: 0,
            message: None
        }),
        "import — running"
    );
    assert_eq!(purge_label(false), "Purger le cache de lecture");
    assert_eq!(purge_label(true), "Cache purgé — plus rien n'est écrit");
}

#[test]
fn an_account_is_chosen_and_a_proposal_shown_where_it_can_be() {
    let mut it = account(4);
    it.can_send = true;
    assert!(unsendable(&it).is_none());
    it.can_send = false;
    assert_eq!(unsendable(&it).unwrap(), no_submission(4));
    let mut shell = Shell::new(4, Bench::Off, None, None);
    shell.writing.suggesting = Some(Field::Cc);
    assert!(!proposes(&shell.writing, Field::Cc));
    shell.writing.suggestions = vec![Suggestion {
        label: "a@b.fr".to_owned(),
        seen_to: 1,
        seen_from: 0,
    }];
    assert!(proposes(&shell.writing, Field::Cc));
    assert!(!proposes(&shell.writing, Field::To));
}
