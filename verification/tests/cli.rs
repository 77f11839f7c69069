use mailclient::accounts::{AccountKind, AuthKind, FullAccount, Security, Server};
use mailclient::cli::account::{
    added_lines, clean_client_secret, clean_secret, cleared_line, client, consent_lines, declared,
    forget, forgotten_lines, held_lines, list, secret, secret_refusal, submission,
    submission_lines, unknown_provider, Declaration, Secret, Submission, SubmissionPlan,
};
use mailclient::cli::dispatch::{local, note, remote, Command, Way};
use mailclient::cli::remote::{
    accepted, follow, followed, found, greeted, job_params, progress_line, search_footer,
    search_header, status, token, token_forgotten, token_prompt, token_stored, unit, vanished,
    wipe, Follow, JobRequest, Share,
};
use mailclient::cli::reports;
use mailclient::cli::source::{missing, print, source_target, Target};
use mailclient::dto::{Hello, Job, MessageSource, Results, Row, Source};
use mailclient::protocol::{Method, Param};

fn job_of(kind: &str, done: u64, total: u64) -> Job {
    Job {
        id: 1,
        kind: kind.to_owned(),
        state: "running".to_owned(),
        done,
        total,
        message: None,
    }
}

/// How far a task is, the way the service counts it.
fn share(job: &Job) -> Option<Share> {
    if job.total == 0 {
        return None;
    }
    let fraction = job.done as f32 / job.total as f32;
    Some(Share {
        filled: (fraction * 30.0).round() as usize,
        percent: format!("{:>5.1}", fraction * 100.0),
    })
}

fn line_of(job: &Job, size: &str) -> String {
    progress_line(job, &share(job), size)
}

fn server(security: Security, auth: AuthKind) -> Server {
    Server {
        host: "imap.exemple.fr".to_owned(),
        port: 993,
        username: "m@exemple.fr".to_owned(),
        auth,
        security,
    }
}

fn account(id: i64, reads: bool) -> FullAccount {
    FullAccount {
        id,
        display_name: "Marie".to_owned(),
        kind: AccountKind::Imap,
        server: if reads {
            Some(server(Security::Tls, AuthKind::OAuth2))
        } else {
            None
        },
        submission: None,
        enabled: true,
    }
}

fn declaration<'a>() -> Declaration<'a> {
    Declaration {
        host: "imap.exemple.fr",
        port: None,
        username: "m@exemple.fr",
        security: "starttls",
        auth: "password",
        client_id: None,
        redirect_port: None,
        renew: false,
    }
}

fn wanted<'a>() -> Submission<'a> {
    Submission {
        host: None,
        port: None,
        security: "starttls",
        username: None,
        auth: None,
        clear: false,
    }
}

#[test]
fn an_unknown_total_shows_no_bar_at_all() {
    let line = line_of(&job_of("index", 500, 0), "500 o");
    assert!(line.starts_with("..."), "{line}");
    assert!(!line.contains('['), "{line}");
}

#[test]
fn the_bar_has_a_fixed_width_whatever_the_fraction() {
    let widths: Vec<usize> = [0, 1, 500, 999, 1000]
        .into_iter()
        .map(|done| {
            let line = line_of(&job_of("index", done, 1000), "");
            let bar = line.split(']').next().unwrap();
            bar.chars().count()
        })
        .collect();
    assert!(
        widths.windows(2).all(|pair| pair[0] == pair[1]),
        "largeurs inégales : {widths:?}"
    );
}

#[test]
fn a_full_bar_does_not_overflow() {
    let line = line_of(&job_of("index", 2_000, 1_000), "");
    assert!(line.contains(&"#".repeat(30)), "{line}");
    assert!(!line.contains(&"#".repeat(31)), "{line}");
}

#[test]
fn an_import_counts_bytes_and_the_rest_counts_messages() {
    let size = "1,4 Mio";
    assert!(line_of(&job_of("import", 1_500_000, 3_000_000), size).contains("Mio"));
    assert!(line_of(&job_of("index", 5_000, 10_000), size).contains("messages"));
    assert_eq!(
        line_of(&job_of("index", 5_000, 10_000), size),
        "[###############               ]  50.0 %  5000 messages"
    );
    assert_eq!(unit(&job_of("import", 1, 2), size), "1,4 Mio");
}

#[test]
fn a_declaration_is_checked_word_by_word() {
    let server = declared(declaration()).unwrap();
    assert_eq!(server.port, 143);
    let bad = Declaration {
        security: "clair",
        ..declaration()
    };
    assert!(declared(bad).is_err());
    let bad = Declaration {
        auth: "carte",
        ..declaration()
    };
    assert!(declared(bad).is_err());
    let good = Declaration {
        port: Some(1143),
        ..declaration()
    };
    assert_eq!(declared(good).unwrap().port, 1143);
}

#[test]
fn a_secret_is_asked_for_once() {
    assert_eq!(secret(AuthKind::Password, true, false), Secret::Held);
    assert_eq!(secret(AuthKind::Password, true, true), Secret::Asked);
    assert_eq!(secret(AuthKind::OAuth2, false, false), Secret::Consented);
    assert_eq!(
        secret_refusal(""),
        Some("secret vide : rien n'a été enregistré")
    );
    assert_eq!(secret_refusal("x"), None);
}

#[test]
fn a_secret_from_a_file_has_no_mark() {
    assert_eq!(clean_secret("\u{feff}abc\r\n", false), "abc");
    assert_eq!(clean_secret("\u{feff}abc", true), "\u{feff}abc");
    assert_eq!(clean_client_secret(" \n", false), None);
    assert_eq!(clean_client_secret("x\n", false).as_deref(), Some("x"));
}

#[test]
fn an_account_is_announced_with_its_server() {
    let lines = added_lines(3, &server(Security::Tls, AuthKind::Password));
    assert_eq!(lines[0], "Compte m@exemple.fr enregistré (#3).");
    assert_eq!(lines[1], "  Serveur   imap.exemple.fr:993");
    assert_eq!(held_lines("u").len(), 3);
    assert_eq!(consent_lines("u", "https://x")[4], "https://x");
    assert_eq!(client(Some(" id ")).unwrap(), "id");
    assert!(client(Some("  ")).unwrap_err().contains("console.cloud.google.com"));
    assert!(client(None).is_err());
    assert!(unknown_provider("h").starts_with("aucun fournisseur OAuth2 connu pour h."));
}

#[test]
fn accounts_are_listed_with_their_servers() {
    assert_eq!(
        list(&Vec::new()),
        vec!["Aucun compte. `mail account add --host … --username …` pour en déclarer un."]
    );
    assert_eq!(
        list(&vec![(account(1, true), true), (account(2, false), false)]),
        vec![
            "#1 Marie — imap imap.exemple.fr:993 tls oauth2 [actif], secret présent",
            "    envoi  non configuré — `mail account submission --account 1 --host smtp.exemple.fr` (hôte à vérifier chez le fournisseur)",
            "#2 Marie — importé d'un mbox, pas de serveur"
        ]
    );
}

#[test]
fn a_submission_is_planned_from_the_reading_server() {
    let known = vec![account(1, true), account(2, false)];
    let given = Submission {
        host: Some("smtp.exemple.fr"),
        ..wanted()
    };
    match submission(&known, 1, given).unwrap() {
        SubmissionPlan::Write(it) => {
            assert_eq!(it.host, "smtp.exemple.fr");
            assert_eq!(it.port, 587);
            assert_eq!(it.username, "m@exemple.fr");
            assert_eq!(it.auth, AuthKind::OAuth2);
            assert!(submission_lines(1, "imap.exemple.fr", &it)
                .iter()
                .any(|line| line.contains("smtp.exemple.fr:587")));
        }
        SubmissionPlan::Clear => panic!("a server was expected"),
    }
    let clear = Submission {
        clear: true,
        ..wanted()
    };
    assert!(matches!(
        submission(&known, 1, clear),
        Ok(SubmissionPlan::Clear)
    ));
    assert!(submission(&known, 9, wanted()).is_err());
    assert!(submission(&known, 2, wanted()).is_err());
    assert!(cleared_line(1).contains("#1"));
    assert_eq!(forget(&known, 1), Ok(0));
    assert!(forget(&known, 2).is_err());
    assert!(forgotten_lines(1, AuthKind::OAuth2).len() > forgotten_lines(1, AuthKind::Password).len());
}

#[test]
fn a_token_is_trimmed_and_never_empty() {
    assert_eq!(token(" abc \n").unwrap(), "abc");
    assert_eq!(
        token("  ").unwrap_err(),
        "jeton vide : rien n'a été enregistré"
    );
    assert_eq!(token_prompt("h"), "Jeton pour h (entrée standard) : ");
    assert!(token_stored("h").contains("trousseau"));
    assert_eq!(token_forgotten("h"), "Jeton oublié pour h.");
    assert_eq!(
        greeted(Ok(("12", "4"))),
        vec!["Démon joignable : 12 messages, protocole 4."]
    );
    assert_eq!(greeted(Err("coupé"))[1], "  coupé");
}

#[test]
fn the_state_of_a_daemon_is_told() {
    let hello = Hello {
        version: "0.1".to_owned(),
        protocol: 4,
        messages: 12,
        search_available: false,
        revision: "r".to_owned(),
    };
    let sources = vec![Source {
        id: 0,
        path: "/p".to_owned(),
    }];
    let lines = status("h", &hello, &sources, &vec![job_of("index", 1, 2)]);
    assert_eq!(lines[1], "Version     0.1 (protocole 4)");
    assert_eq!(lines[3], "Recherche   index absent — lancer `mail index`");
    assert!(lines.contains(&"            [0] /p".to_owned()));
    assert!(lines.iter().any(|it| it.contains("#1 index — running")));
    let bare = status("h", &hello, &Vec::new(), &Vec::new());
    assert!(bare.contains(&"Import      aucun profil déclaré côté démon".to_owned()));
}

#[test]
fn a_search_against_a_daemon_says_when_it_cannot() {
    let row = Row {
        id: 1,
        date: 0,
        from: "a@b.fr".to_owned(),
        from_name: None,
        subject: "Sujet".to_owned(),
        unread: false,
        flagged: false,
        has_attachments: false,
    };
    assert!(found(&row, "10/09").ends_with("  Sujet"));
    let mut results = Results {
        rows: Vec::new(),
        count: 2,
        truncated: true,
        search_available: true,
    };
    assert_eq!(
        search_header("h", &results, "3 ms"),
        vec!["2 résultat(s) en 3 ms\n"]
    );
    assert!(search_footer(&results).is_some());
    results.search_available = false;
    assert_eq!(
        search_header("h", &results, "3 ms")[1],
        "Lancer `mail index --daemon h`."
    );
    assert_eq!(search_footer(&results), None);
}

#[test]
fn a_task_is_started_and_followed() {
    let request = JobRequest {
        kind: "sync",
        account: Some(3),
        source: None,
        dry_run: false,
        include_feeds: false,
        include_orphans: false,
        follow: true,
    };
    let params = job_params(&request);
    assert_eq!(params.len(), 5);
    assert!(matches!(params[0], ("kind", Param::Text("sync"))));
    assert!(matches!(params[4], ("account", Param::Int(3))));
    let mut job = job_of("index", 10, 20);
    assert!(accepted(&job).contains("#1"));
    assert!(followed("h").contains('h'));
    assert!(vanished(4).contains("#4"));
    let shared = share(&job);
    assert!(matches!(
        follow(&job, &shared, "10 o", "1 s"),
        Follow::Progress(_)
    ));
    job.state = "done".to_owned();
    match follow(&job, &shared, "10 o", "1 s") {
        Follow::Over { lines, failed } => {
            assert!(!failed && !lines.is_empty());
        }
        Follow::Progress(_) => panic!("the task is over"),
    }
    job.state = "failed".to_owned();
    match follow(&job, &shared, "10 o", "1 s") {
        Follow::Over { failed, .. } => assert!(failed),
        Follow::Progress(_) => panic!("the task is over"),
    }
    assert!(wipe(3).contains("   "));
}

#[test]
fn the_target_of_a_source_is_never_guessed() {
    assert_eq!(source_target(Some(1), None), Ok(Target::Message(1)));
    assert_eq!(source_target(None, Some(2)), Ok(Target::Outgoing(2)));
    for both in [source_target(None, None), source_target(Some(1), Some(2))] {
        assert_eq!(
            both.unwrap_err(),
            "indiquer ce qu'il faut lire : --id <message> ou --outbox <ligne>"
        );
    }
    let named = Target::Outgoing(2).named();
    assert_eq!(named.what, "file d'envoi #2");
    assert_eq!(named.method, Method::OutboxSource);
    assert_eq!(Target::Message(5).named().what, "message #5");
    assert_eq!(
        missing("message #5", false),
        "message #5 : introuvable, ou son contenu manque du magasin"
    );
    assert!(missing("x", true).contains("côté démon"));
}

#[test]
fn a_source_is_printed_after_its_reservations() {
    let source = MessageSource {
        headers: "From: a\n".to_owned(),
        body: "corps\n".to_owned(),
        total: 14,
        headers_truncated: true,
        body_truncated: true,
        invalid_sequences: 1,
        escaped_controls: 2,
    };
    assert_eq!(
        print("message #1", &source, "14 o", false),
        "message #1 — 14 o\n  1 séquence(s) d'octets non UTF-8, rendues par « \u{fffd} »\n  2 caractère(s) de contrôle rendus visibles sous la forme \\xNN\n  en-têtes tronqués\n\nFrom: a\n\ncorps\n\n[corps tronqué — le message fait 14 o]\n"
    );
    let alone = print("message #1", &source, "14 o", true);
    assert!(alone.ends_with("\n\nFrom: a\n"));
    assert!(print("message #1", &source, "14 o", false).starts_with(&alone));
}

#[test]
fn what_touches_an_account_stays_home() {
    for command in [
        Command::Contacts,
        Command::Outbox,
        Command::Account,
        Command::Doctor,
        Command::Send {
            account: Some(1),
            flush: false,
        },
    ] {
        assert!(matches!(remote(&command), Way::Refused(_)));
        assert!(matches!(local(&command), Way::Here));
    }
    match remote(&Command::Sync { account: Some(2) }) {
        Way::Job(job) => {
            assert_eq!((job.kind, job.account, job.follow), ("sync", Some(2), true));
        }
        _ => panic!("a task was expected"),
    }
    match remote(&Command::Index { detach: true }) {
        Way::Job(job) => assert!(!job.follow && job.kind == "index"),
        _ => panic!("a task was expected"),
    }
    assert!(matches!(remote(&Command::Stats), Way::Ask));
}

#[test]
fn what_is_missing_here_is_said() {
    assert!(matches!(local(&Command::Daemon), Way::Refused(_)));
    let import = |profile: Option<&str>| Command::Import {
        profile: profile.map(ToOwned::to_owned),
        source: Some(1),
        dry_run: true,
        include_feeds: false,
        include_orphans: true,
        detach: false,
    };
    assert!(matches!(
        local(&import(None)),
        Way::Refused("chemin du profil requis en local : --profile <chemin>, ou MAILCORE_TB_PROFILE")
    ));
    assert!(matches!(local(&import(Some("/p"))), Way::Here));
    assert!(note(&import(Some("/p"))).is_some());
    assert!(note(&import(None)).is_none());
    match remote(&import(Some("/p"))) {
        Way::Job(job) => {
            assert_eq!(job.source, Some(1));
            assert!(job.dry_run && job.include_orphans && !job.include_feeds && job.follow);
        }
        _ => panic!("a task was expected"),
    }
    let send = Command::Send {
        account: None,
        flush: false,
    };
    assert!(matches!(
        local(&send),
        Way::Refused("`--account` est obligatoire sans `--flush`")
    ));
}

#[test]
fn reports_say_what_was_counted() {
    let it = reports::StoreStats {
        accounts: 1,
        folders: 2,
        messages: 3,
        refs: 4,
        raw_bytes: 5,
        unthreaded: 6,
    };
    let lines = reports::stats("/r", &it, "1.33", "5 o");
    assert_eq!(lines[0], "Store              /r");
    assert_eq!(
        lines[7],
        "Sans fil           6 — la passe de threading n'est pas passée"
    );
    assert_eq!(
        reports::remote_stats("h", &it, "5 o")[6],
        "Non rattachés      6 — lancer `mail thread --daemon h`"
    );
    let index = reports::IndexStats {
        indexed: 3,
        degraded: 0,
        missing_blobs: 1,
    };
    assert_eq!(
        reports::index("1 s", &index, "9 o"),
        vec![
            "Durée              1 s",
            "Messages indexés   3",
            "Texte indexé       9 o",
            "Blobs absents      1 — voir `mail doctor`"
        ]
    );
}

#[test]
fn contacts_line_up() {
    let contact = reports::Contact {
        score: 12,
        seen_to: 3,
        seen_from: 45,
        label: "Marie <m@x.fr>".to_owned(),
    };
    assert_eq!(
        reports::contact(&contact),
        "     12     3↑   45↓  Marie <m@x.fr>"
    );
    assert_eq!(
        reports::contacts_stats(0, &Vec::new())[1],
        "Carnet vide — `mail contacts rebuild` pour le construire depuis le corpus."
    );
    assert_eq!(reports::complete(&vec![contact], "2")[0], "1 propositions en 2ms");
}

#[test]
fn a_hit_that_is_gone_says_where_to_look() {
    let gone = reports::Hit {
        id: 4,
        score: "1.20".to_owned(),
        item: None,
    };
    assert_eq!(
        reports::hit(&gone),
        "  [4] introuvable dans l'index — voir `mail doctor`"
    );
    assert_eq!(
        reports::search("q", &Vec::new(), "1 ms"),
        vec!["aucun résultat pour « q »   (1 ms)"]
    );
    assert_eq!(
        reports::search("q", &vec![gone], "1 ms")[0],
        "1 résultats en 1 ms\n"
    );
}
