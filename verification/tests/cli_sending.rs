use mailclient::accounts::{AccountKind, AuthKind, FullAccount, Security, Server};
use mailclient::cli::doctor::{self, Checkup, Purge};
use mailclient::cli::probe::{self, order, order_words, oui, status_items, Findings, State};
use mailclient::cli::send::{
    after_composing, bad_address, bad_sender, body_refusal, flush_account, flush_failure,
    gesture_made, gesture_refused, list, no_signature, not_delivered, nothing_to_flush,
    outbox_command, queued, report, sender, show, Gesture, Line, Next, Outcome, OutboxCommand,
    Peek, SendState, ShownFile, Turn, PEEK,
};
use mailclient::cli::sync::{self, Tally};
use mailclient::protocol::Decision;

fn server() -> Server {
    Server {
        host: "imap.exemple.fr".to_owned(),
        port: 993,
        username: "m@exemple.fr".to_owned(),
        auth: AuthKind::Password,
        security: Security::Tls,
    }
}

fn account(id: i64) -> FullAccount {
    FullAccount {
        id,
        display_name: "Marie".to_owned(),
        kind: AccountKind::Imap,
        server: Some(server()),
        submission: Some(server()),
        enabled: true,
    }
}

fn findings() -> Findings {
    Findings {
        capabilities: vec!["idle".to_owned(), "IMAP4rev1".to_owned(), "CONDSTORE".to_owned()],
        condstore: true,
        qresync: false,
        listed: 4,
        selectable: 3,
        list_took: 12,
        list_status: Some((3, 20)),
        states: vec![State {
            name: "INBOX".to_owned(),
            messages: Some(12),
            uidnext: None,
            uidvalidity: Some(7),
            highest_modseq: None,
        }],
        examines: vec![30, 10, 20],
        examined: 61,
        failure: None,
    }
}

#[test]
fn who_sends_is_decided_before_anything_is_read() {
    let mut known = vec![account(1), account(2)];
    known[1].server = None;
    let it = sender(&known, 1).unwrap();
    assert_eq!(it.rank, 0);
    assert_eq!(it.name.as_deref(), Some("Marie"));
    known[0].display_name = "m@exemple.fr".to_owned();
    assert_eq!(sender(&known, 1).unwrap().name, None);
    assert_eq!(
        sender(&known, 2).err().unwrap(),
        "le compte #2 n'a pas de serveur : il ne peut pas envoyer"
    );
    assert_eq!(
        sender(&known, 3).err().unwrap(),
        "aucun compte #3 — voir `mail account list`"
    );
    assert_eq!(
        bad_sender(1),
        "l'identifiant du compte #1 n'est pas une adresse valide"
    );
    assert_eq!(bad_address("a\"b"), "adresse invalide : \"a\\\"b\"");
    assert!(no_signature(1).starts_with("le compte #1 n'a pas de signature"));
    assert!(body_refusal(" \n").is_some());
    assert_eq!(body_refusal("x"), None);
}

#[test]
fn a_trial_needs_no_server_to_send_to() {
    let mut it = account(4);
    assert_eq!(after_composing(false, &it), Ok(Next::Queue));
    it.submission = None;
    assert_eq!(after_composing(true, &it), Ok(Next::Show));
    assert_eq!(
        after_composing(false, &it).unwrap_err(),
        "le compte #4 n'a pas de serveur d'envoi — `mail account submission --account 4`"
    );
    assert_eq!(queued(3, "2 Kio"), "Message #3 en file (2 Kio).");
}

#[test]
fn a_doubt_is_neither_a_success_nor_a_failure() {
    let sent = report(1, Outcome::Sent, &None);
    assert_eq!(sent.lines, vec!["#1 envoyé."]);
    assert_eq!(sent.failure, None);
    let later = report(1, Outcome::Deferred, &None);
    assert_eq!(later.lines[0], "#1 reporté : refus passager");
    let refused = report(1, Outcome::Failed, &Some("non".to_owned()));
    assert!(refused.lines.is_empty());
    assert_eq!(refused.failure.as_deref(), Some("#1 refusé : non"));
    let doubt = report(1, Outcome::Doubtful, &Some("coupé".to_owned()));
    assert_eq!(doubt.lines[1], "    coupé");
    assert_eq!(doubt.lines.len(), 6);
    assert_eq!(
        doubt.failure.as_deref(),
        Some("#1 est dans un état incertain")
    );
}

#[test]
fn the_queue_is_emptied_line_by_line() {
    let mut known = vec![account(1), account(2)];
    known[1].submission = None;
    assert_eq!(flush_account(&known, 1, 9), Ok(0));
    assert_eq!(
        flush_account(&known, 2, 9).unwrap_err(),
        "#9 : le compte n'a pas de serveur d'envoi, ignoré."
    );
    assert_eq!(
        flush_account(&known, 5, 9).unwrap_err(),
        "#9 : compte inconnu, ignoré."
    );
    assert_eq!(not_delivered(9, "coupé"), "#9 : coupé");
    assert_eq!(nothing_to_flush(0), vec!["Rien à remettre."]);
    assert_eq!(nothing_to_flush(2).len(), 2);
    assert_eq!(
        flush_failure(&vec![
            Turn::Delivered(Outcome::Sent),
            Turn::Delivered(Outcome::Deferred)
        ]),
        None
    );
    assert_eq!(
        flush_failure(&vec![
            Turn::PassedOver,
            Turn::Delivered(Outcome::Doubtful),
            Turn::Delivered(Outcome::Sent),
            Turn::Broken
        ])
        .as_deref(),
        Some("3 message(s) ne sont pas partis")
    );
}

#[test]
fn the_queue_is_listed_with_its_gestures() {
    assert_eq!(list(&Vec::new()), vec!["File d'envoi vide."]);
    let lines = list(&vec![Line {
        id: 4,
        sender: "m@x.fr".to_owned(),
        recipients: vec!["a@b.fr".to_owned(), "c@d.fr".to_owned()],
        state: SendState::Failed,
        last_error: Some("refus".to_owned()),
        resendable: true,
    }]);
    assert_eq!(
        lines,
        vec![
            "#4 m@x.fr → a@b.fr, c@d.fr [échoué]",
            "    refus",
            "    `mail outbox --retry 4` pour le renvoyer tel quel."
        ]
    );
    assert_eq!(
        gesture_refused(4, Gesture::Retry, None),
        "le message #4 est à l'état « inexistant » : seul un envoi échoué se renvoie. `mail outbox` pour voir la file."
    );
    assert!(gesture_refused(4, Gesture::Forget, Some("queued")).contains("« queued »"));
    assert!(gesture_refused(4, Gesture::Cancel, Some("sent")).contains("l'annulation"));
    assert!(gesture_refused(4, Gesture::Decide(Decision::Accept), Some("sent"))
        .contains("seul un envoi incertain"));
    assert_eq!(
        gesture_made(4, Gesture::Decide(Decision::Accept)),
        vec!["#4 marqué envoyé. Aucun octet n'est parti."]
    );
    assert_eq!(gesture_made(4, Gesture::Cancel)[0], "#4 annulé : il ne partira pas.");
    assert!(matches!(
        outbox_command(Some(1), Some(2), None, None),
        OutboxCommand::Gesture(1, Gesture::Decide(Decision::Resend))
    ));
    assert!(matches!(
        outbox_command(None, None, None, None),
        OutboxCommand::List
    ));
}

#[test]
fn a_sink_keeps_the_beginning_and_counts_the_rest() {
    let mut peek = Peek::new();
    assert_eq!(peek.write(&[b'a'; 5000]), 5000);
    assert_eq!(peek.write(&[b'b'; 5000]), 5000);
    assert_eq!(peek.head.len(), PEEK);
    assert_eq!(peek.head[PEEK - 1], b'b');
    assert_eq!(peek.total, 10_000);
    peek.total = u64::MAX;
    peek.write(b"x");
    assert_eq!(peek.total, u64::MAX);
}

#[test]
fn a_trial_shows_the_envelope_and_the_headers() {
    let mut peek = Peek::new();
    peek.write("From: é\r\nTo: x\r\n\r\ncorps".as_bytes());
    peek.write(&[0xff]);
    let files = vec![ShownFile {
        filename: "f.pdf".to_owned(),
        size: "3 o".to_owned(),
        encoded: "4 o".to_owned(),
    }];
    let recipients = vec!["a@b.fr".to_owned(), "cache@b.fr".to_owned()];
    let lines = show("m@x.fr", &recipients, "1 Kio", &peek, &files);
    assert_eq!(
        lines[..11],
        [
            "Enveloppe SMTP",
            "  MAIL FROM: <m@x.fr>",
            "  RCPT TO:   <a@b.fr>",
            "  RCPT TO:   <cache@b.fr>",
            "",
            "Message (1 Kio)",
            "  From: é",
            "  To: x",
            "",
            "Pièces jointes",
            "  f.pdf — 3 o (4 o une fois encodée)"
        ]
    );
    assert_eq!(
        lines[12],
        "Rien n'a été envoyé, et aucune connexion n'a été ouverte."
    );
    let mut broken = Peek::new();
    broken.write(&[b'X', 0xff, b'\n', b'\n']);
    let lines = show("m", &Vec::new(), "1", &broken, &Vec::new());
    assert_eq!(lines[4], "  X\u{fffd}");
}

#[test]
fn a_paused_account_is_told_of_when_it_is_named() {
    let mut known = vec![account(1), account(2), account(3)];
    known[1].enabled = false;
    known[2].kind = AccountKind::Imported;
    let all = sync::wanted(&known, None);
    assert_eq!(all.ranks, vec![0]);
    assert!(all.lines.is_empty());
    let paused = sync::wanted(&known, Some(2));
    assert!(paused.ranks.is_empty());
    assert_eq!(
        paused.lines,
        vec![
            "Compte #2 en pause — `mail account add` pour le réactiver.",
            "Aucun compte IMAP actif portant le numéro 2."
        ]
    );
    assert_eq!(
        sync::wanted(&Vec::new(), None).lines,
        vec!["Aucun compte IMAP actif. Voir `mail account list`."]
    );
    assert_eq!(sync::active(&known, Some(3)), Vec::<usize>::new());
}

#[test]
fn the_tally_of_an_account_is_exact() {
    let tally = Tally {
        folders: 3,
        skipped: 1,
        fetched: 10,
        stored: 6,
        duplicates: 4,
        vanished: 2,
        failures: Vec::new(),
    };
    assert_eq!(
        sync::report(&account(1), &tally, "40.0"),
        vec![
            "",
            "Compte #1 — Marie",
            "  Dossiers        3 (1 déjà à jour, sans EXAMINE)",
            "  Corps reçus     10",
            "  Nouveaux        6 (4 déjà connus)",
            "  Disparus        2",
            "  Dédup           40.0 % du reçu était déjà dans le store",
            "  Verdict         terminé"
        ]
    );
    let failed = sync::failed(sync::with_advice("refusé", false));
    let lines = sync::report(&account(1), &failed, "0.0");
    assert_eq!(lines[5], "  Verdict         1 échec(s) :");
    assert_eq!(lines[6], "    - refusé (à corriger)");
    assert_eq!(sync::with_advice("coupé", true), "coupé (à réessayer)");
    let mut bare = account(1);
    assert_eq!(sync::no_server(&bare), None);
    bare.server = None;
    assert!(sync::no_server(&bare).is_some());
    assert_eq!(sync::failure(&vec![true, true], "synchronisé"), None);
    assert_eq!(
        sync::failure(&vec![true, false], "synchronisé").as_deref(),
        Some("au moins un compte n'a pas pu être synchronisé")
    );
}

#[test]
fn a_probe_reports_spread_before_middle() {
    let lines = probe::report(&account(1), &findings(), true);
    assert_eq!(lines[0], "#1 Marie — imap.exemple.fr:993");
    assert_eq!(lines[1], "  CONDSTORE      annoncé");
    assert_eq!(lines[2], "  QRESYNC        —");
    assert_eq!(lines[6], "  IDLE           annoncé");
    assert_eq!(lines[7], "  ENABLE         condstore oui, qresync non");
    assert_eq!(
        lines[8],
        "  LIST           4 boîtes, 3 sélectionnables — 12 ms"
    );
    assert_eq!(
        lines[9],
        "  LIST-STATUS    3 STATUS pour 3 boîtes — 20 ms"
    );
    assert_eq!(
        lines[10],
        "  EXAMINE        3 boîtes — 61 ms au total, min 10 ms, médiane 20 ms, max 30 ms"
    );
    assert_eq!(lines[11], "  capacités      CONDSTORE IMAP4rev1 idle");
    assert_eq!(
        lines[13],
        format!(
            "    {:<40} messages {:>7}  uidnext {:>8}  uidvalidity {:>10}  modseq {}",
            "INBOX", "12", "—", "7", "—"
        )
    );
    assert_eq!(probe::report(&account(1), &findings(), false).len(), 13);
    let mut broken = findings();
    broken.failure = Some("refusé".to_owned());
    assert_eq!(
        probe::report(&account(1), &broken, true)[1..],
        ["  échec : refusé", ""]
    );
    let mut empty = findings();
    empty.examines = Vec::new();
    empty.list_status = None;
    let lines = probe::report(&account(1), &empty, false);
    assert_eq!(lines[9], "  LIST-STATUS    non annoncé");
    assert_eq!(lines[10], "  EXAMINE        aucune boîte sélectionnable");
}

#[test]
fn numbers_and_words_are_ordered() {
    assert_eq!(order(&vec![3, 1, 2, 1]), vec![1, 1, 2, 3]);
    let words: Vec<String> = ["é", "b", "ab", "a", "B"]
        .iter()
        .map(|it| (*it).to_owned())
        .collect();
    assert_eq!(order_words(&words), vec!["B", "a", "ab", "b", "é"]);
    assert_eq!(probe::show(None), "—");
    assert_eq!(probe::show(Some(0)), "0");
    assert_eq!((oui(true), oui(false)), ("oui", "non"));
    assert!(status_items(true).ends_with("HIGHESTMODSEQ"));
    assert!(!status_items(false).contains("HIGHESTMODSEQ"));
}

fn checkup() -> Checkup {
    Checkup {
        root: "/r".to_owned(),
        messages: 5,
        refs: 6,
        size: "1 Kio".to_owned(),
        unthreaded: 0,
        dangling: 0,
        missing: Vec::new(),
        orphans: 0,
        purge: None,
        index: Ok(5),
        queue: Vec::new(),
        doubtful: Vec::new(),
    }
}

#[test]
fn a_consistent_store_is_said_to_be() {
    assert_eq!(
        doctor::report(&checkup()),
        vec![
            "Store              /r",
            "Contenus distincts 5",
            "Références         6",
            "Octets RFC 5322    1 Kio",
            "Documents indexés  5",
            "",
            "Aucune incohérence."
        ]
    );
}

#[test]
fn nothing_amiss_goes_unsaid() {
    let it = Checkup {
        unthreaded: 1,
        dangling: 2,
        missing: vec!["abc".to_owned()],
        orphans: 3,
        index: Ok(4),
        queue: vec![
            SendState::Queued,
            SendState::Sending,
            SendState::Sent,
            SendState::Failed,
            SendState::Committing,
        ],
        doubtful: vec![9],
        ..checkup()
    };
    let found = doctor::findings(&it);
    assert_eq!(found.len(), 6);
    assert_eq!(found[0], "2 références vers un message inexistant");
    assert_eq!(
        found[1],
        "1 messages dont le blob est absent (premier : abc)"
    );
    assert_eq!(
        found[3],
        "index désynchronisé : 4 documents pour 5 messages — `mail index`"
    );
    assert!(found[5].ends_with("Premier : #9"));
    let lines = doctor::report(&it);
    assert!(lines.contains(&"File d'envoi       2 en attente, 1 envoyés, 1 échoués".to_owned()));
    assert!(lines.contains(&"6 points à regarder :".to_owned()));
    let purged = Checkup {
        orphans: 3,
        purge: Some(Purge {
            removed: 2,
            freed: "9 o".to_owned(),
            failed: 1,
        }),
        index: Err("corrompu".to_owned()),
        ..checkup()
    };
    assert_eq!(
        doctor::findings(&purged),
        vec![
            "1 blobs orphelins n'ont pas pu être supprimés — voir le journal",
            "index plein texte illisible : corrompu"
        ]
    );
    assert!(doctor::report(&purged)
        .contains(&"Purge              2 blobs supprimés, 9 o rendus".to_owned()));
}
