use mailclient::account_work::remote_refusal_text;
use mailclient::account_work::{
    account_detail, address, check_declaration, choose_secret, consent_request, consent_said,
    declared_text, forget_account, forgotten_text, set_submission, submission_text, ConsentEnd,
    SecretStep,
};
use mailclient::accounts::{
    choose_port, find, parse_port, server_host, suggest_submission, AccountKind, AuthKind,
    FullAccount, Security, Server,
};
use mailclient::protocol::{logged, Request};
use mailclient::settings::{
    suggested_submission, AccountDetail, AccountForm, Click, ConsentForm, Outcome, Page,
    SubmissionForm,
};

fn server(host: &str, auth: AuthKind) -> Server {
    Server {
        host: host.to_owned(),
        port: 993,
        username: "marie@exemple.fr".to_owned(),
        auth,
        security: Security::Tls,
    }
}

fn account(id: i64, reads: bool) -> FullAccount {
    FullAccount {
        id,
        display_name: "Marie".to_owned(),
        kind: AccountKind::Imap,
        server: if reads {
            Some(server("imap.exemple.fr", AuthKind::Password))
        } else {
            None
        },
        submission: None,
        enabled: true,
    }
}

fn an_account() -> AccountDetail {
    AccountDetail {
        id: 1,
        name: "marie@exemple.fr".to_owned(),
        server: "imap.gmail.com:993".to_owned(),
        username: "marie@exemple.fr".to_owned(),
        security: "tls".to_owned(),
        auth: "oauth2".to_owned(),
        secret: true,
        submission: Some("smtp.gmail.com:587 starttls".to_owned()),
        enabled: true,
    }
}

fn consent() -> ConsentForm {
    ConsentForm::for_account(String::new(), String::new())
}

#[test]
fn a_form_never_prints_its_secret() {
    let form = AccountForm {
        host: "imap.exemple.fr".to_owned(),
        port: String::new(),
        username: "marie@exemple.fr".to_owned(),
        security: "tls".to_owned(),
        auth: "password".to_owned(),
        secret: "correct-cheval-pile-agrafe".to_owned(),
    };
    let shown = form.masked();
    assert!(!shown.contains("correct-cheval-pile-agrafe"));
    assert!(shown.contains("<masqué>"));
    assert!(shown.contains("imap.exemple.fr"));
    assert!(shown.contains("marie@exemple.fr"));
}

#[test]
fn an_empty_secret_is_not_masked_because_there_is_nothing_to_mask() {
    let form = AccountForm::new();
    let shown = form.masked();
    assert!(!shown.contains("<masqué>"));
}

#[test]
fn a_request_carrying_a_form_does_not_leak_it_either() {
    let form = AccountForm {
        secret: "tr0p-secret".to_owned(),
        ..AccountForm::new()
    };
    let request = Request::DeclareAccount(Box::new(form));
    assert!(!logged(&request).contains("tr0p-secret"));
}

#[test]
fn a_consent_form_masks_its_client_secret_but_not_its_client_id() {
    let form = ConsentForm {
        host: "imap.gmail.com".to_owned(),
        username: "marie@exemple.fr".to_owned(),
        client_id: "123-abc.apps.googleusercontent.com".to_owned(),
        client_secret: "GOCSPX-jamais-affiche".to_owned(),
        redirect_port: String::new(),
    };
    let shown = form.masked();
    assert!(!shown.contains("GOCSPX-jamais-affiche"));
    assert!(shown.contains("<masqué>"));
    assert!(shown.contains("123-abc.apps.googleusercontent.com"));
}

#[test]
fn a_request_carrying_a_consent_form_does_not_leak_it_either() {
    let form = ConsentForm {
        client_secret: "GOCSPX-tr0p-secret".to_owned(),
        ..consent()
    };
    let request = Request::Consent(Box::new(form));
    assert!(!logged(&request).contains("GOCSPX-tr0p-secret"));
}

#[test]
fn the_suggested_submission_host_is_only_a_suggestion_for_hosts_it_recognises() {
    assert_eq!(
        suggested_submission("imap.gmail.com").as_deref(),
        Some("smtp.gmail.com")
    );
    assert_eq!(suggested_submission("mail.perso.invalid"), None);
    assert_eq!(suggested_submission("courrier.exemple.fr"), None);
}

#[test]
fn the_host_of_a_server_line_drops_its_port() {
    assert_eq!(server_host("imap.gmail.com:993"), "imap.gmail.com");
    assert_eq!(server_host("imap.gmail.com"), "imap.gmail.com");
}

#[test]
fn every_state_of_the_page_draws_without_panicking() {
    let states: Vec<Page> = vec![
        Page::opened(false),
        Page::opened(true),
        Page {
            accounts: vec![an_account()],
            ..Page::opened(false)
        },
        Page {
            accounts: vec![AccountDetail {
                secret: false,
                enabled: false,
                submission: None,
                ..an_account()
            }],
            forgetting: Some(1),
            message: Some("un refus".to_owned()),
            failed: true,
            ..Page::opened(false)
        },
        Page {
            declaring: Some(AccountForm::new()),
            ..Page::opened(false)
        },
        Page {
            declaring: Some(AccountForm {
                auth: "oauth2".to_owned(),
                ..AccountForm::new()
            }),
            ..Page::opened(false)
        },
        Page {
            accounts: vec![an_account()],
            submitting: Some(SubmissionForm::for_account(1)),
            ..Page::opened(false)
        },
        Page {
            submitting: Some(SubmissionForm::for_account(99)),
            ..Page::opened(false)
        },
        Page {
            consenting: Some(consent()),
            ..Page::opened(false)
        },
        Page {
            consent_url: Some("https://accounts.example/auth?x=1".to_owned()),
            ..Page::opened(false)
        },
    ];
    let mut offered = Vec::new();
    for page in &states {
        assert_eq!(page.list().len(), page.accounts.len());
        offered.push(page.offered_submission());
    }
    assert_eq!(offered[6].as_deref(), Some("smtp.gmail.com"));
    assert_eq!(offered[7], None);
    let worst = &states[3].list()[0];
    assert!(worst.paused && worst.confirming && !worst.syncable);
    assert_eq!(worst.secret, "aucun secret enregistré");
    assert_eq!(worst.consent, Some("Obtenir un jeton…"));
    assert_eq!(
        worst.sending,
        "aucun serveur d'envoi — ce compte ne peut pas envoyer"
    );
    assert_eq!(
        worst.sync_refusal,
        "Aucun secret enregistré : la connexion échouerait."
    );
    let good = &states[2].list()[0];
    assert_eq!(good.title, "#1 marie@exemple.fr");
    assert_eq!(
        good.line,
        "imap.gmail.com:993 · marie@exemple.fr · tls · oauth2"
    );
    assert_eq!(good.consent, Some("Refaire le consentement…"));
    assert_eq!(good.sending, "envoi par smtp.gmail.com:587 starttls");
}

#[test]
fn a_page_that_nobody_clicked_asks_for_nothing() {
    let mut states = [
        Page::opened(false),
        Page {
            accounts: vec![an_account()],
            declaring: Some(AccountForm::new()),
            submitting: Some(SubmissionForm {
                account: 0,
                host: String::new(),
                port: String::new(),
                security: String::new(),
            }),
            consenting: Some(consent()),
            forgetting: Some(1),
            ..Page::opened(false)
        },
    ];
    for page in &mut states {
        assert!(
            matches!(page.show(None), Outcome::Idle),
            "la page a demandé quelque chose sans qu'on clique"
        );
    }
    assert!(states[1].declaring.is_some() && states[1].consenting.is_some());
    assert_eq!(states[1].forgetting, Some(1));
    assert!(matches!(
        states[1].show(Some(Click::ConfirmForget(0))),
        Outcome::Forget(1)
    ));
    assert_eq!(states[1].forgetting, None);
}

#[test]
fn a_form_can_be_saved_once_it_has_what_it_needs() {
    let mut page = Page {
        declaring: Some(AccountForm::new()),
        submitting: Some(SubmissionForm::for_account(1)),
        consenting: Some(ConsentForm::for_account(
            "imap.gmail.com".to_owned(),
            "marie@exemple.fr".to_owned(),
        )),
        ..Page::opened(false)
    };
    let ready = page.ready();
    assert!(!ready.declaration && !ready.submission && !ready.consent);
    assert!(matches!(page.show(Some(Click::SaveDeclaration)), Outcome::Idle));

    page.declaring = Some(AccountForm {
        host: " imap.gmail.com ".to_owned(),
        username: "marie".to_owned(),
        ..AccountForm::new()
    });
    page.submitting = Some(SubmissionForm {
        host: "smtp.gmail.com".to_owned(),
        ..SubmissionForm::for_account(1)
    });
    page.consenting = Some(ConsentForm {
        client_id: "123".to_owned(),
        ..consent()
    });
    let ready = page.ready();
    assert!(ready.declaration && ready.submission && ready.consent);
    assert!(matches!(page.show(Some(Click::SaveDeclaration)), Outcome::Declare(_)));
    assert!(!Page::opened(false).ready().declaration);
}

#[test]
fn drawing_the_page_twice_leaves_its_forms_where_they_were() {
    let mut page = Page {
        declaring: Some(AccountForm {
            host: "imap.gmail.com".to_owned(),
            ..AccountForm::new()
        }),
        consenting: Some(consent()),
        ..Page::opened(false)
    };
    page.list();
    page.show(None);
    page.list();
    page.show(None);
    assert_eq!(
        page.declaring.as_ref().map(|it| it.host.as_str()),
        Some("imap.gmail.com")
    );
    assert!(page.consenting.is_some());
}

#[test]
fn a_remote_service_gets_no_account_written_and_is_told_why() {
    let form = AccountForm {
        host: "imap.exemple.fr".to_owned(),
        username: "marie@exemple.fr".to_owned(),
        secret: "jamais-transmis".to_owned(),
        ..AccountForm::new()
    };
    let submission = SubmissionForm {
        account: 1,
        host: "smtp.exemple.fr".to_owned(),
        port: String::new(),
        security: "starttls".to_owned(),
    };
    let known = vec![account(1, true)];
    for refusal in [
        check_declaration(&form, true).unwrap_err(),
        set_submission(&submission, true, &known).unwrap_err(),
        forget_account(1, true, &known).unwrap_err(),
        remote_refusal_text().to_owned(),
    ] {
        assert!(refusal.contains("trousseau"), "refus muet : {refusal}");
        assert!(!refusal.contains("jamais-transmis"));
    }
}

#[test]
fn a_form_without_a_server_is_refused_before_anything_is_written() {
    let refusal = check_declaration(&AccountForm::new(), true).unwrap_err();
    assert!(refusal.contains("serveur"), "{refusal}");
}

#[test]
fn an_unknown_encryption_mode_is_refused_rather_than_downgraded() {
    let form = AccountForm {
        host: "imap.exemple.fr".to_owned(),
        username: "marie@exemple.fr".to_owned(),
        security: "aucun".to_owned(),
        ..AccountForm::new()
    };
    let refusal = check_declaration(&form, true).unwrap_err();
    assert!(refusal.contains("tls"), "{refusal}");
}

#[test]
fn the_masked_text_of_a_form_is_exact() {
    let form = AccountForm {
        host: "h\"ôte".to_owned(),
        secret: "x".to_owned(),
        ..AccountForm::new()
    };
    assert_eq!(
        form.masked(),
        "AccountForm { host: \"h\\\"ôte\", port: \"\", username: \"\", security: \"tls\", auth: \"password\", secret: \"<masqué>\" }"
    );
}

#[test]
fn a_declaration_names_each_of_its_faults() {
    let good = AccountForm {
        host: " imap.exemple.fr ".to_owned(),
        username: "marie@exemple.fr".to_owned(),
        ..AccountForm::new()
    };
    let server = check_declaration(&good, false).unwrap();
    assert_eq!(server.host, "imap.exemple.fr");
    assert_eq!(server.port, 993);
    let bad = AccountForm {
        auth: "carte".to_owned(),
        ..good.copy()
    };
    assert_eq!(
        check_declaration(&bad, false).unwrap_err(),
        "mécanisme `carte` : attendu password ou oauth2"
    );
    let bad = AccountForm {
        port: "99999".to_owned(),
        ..good.copy()
    };
    assert_eq!(
        check_declaration(&bad, false).unwrap_err(),
        "port `99999` : attendu un nombre"
    );
    let other = AccountForm {
        port: " 143 ".to_owned(),
        security: "starttls".to_owned(),
        ..good.copy()
    };
    let server = check_declaration(&other, false).unwrap();
    assert_eq!(server.port, 143);
    assert_eq!(
        declared_text(7, &server, SecretStep::Write),
        "Compte #7 enregistré — imap.exemple.fr:143 starttls password · secret enregistré dans le trousseau."
    );
}

#[test]
fn a_secret_is_written_reused_or_missing() {
    assert_eq!(
        choose_secret(AuthKind::Password, true, " x "),
        Ok(SecretStep::Write)
    );
    assert_eq!(
        choose_secret(AuthKind::Password, true, "  "),
        Ok(SecretStep::Reuse)
    );
    assert_eq!(
        choose_secret(AuthKind::Password, false, ""),
        Err("aucun secret dans le trousseau pour ce compte : il en faut un".to_owned())
    );
    assert_eq!(
        choose_secret(AuthKind::OAuth2, true, "x"),
        Ok(SecretStep::Adopt)
    );
    assert!(choose_secret(AuthKind::OAuth2, false, "x").is_err());
}

#[test]
fn a_submission_server_reads_its_account() {
    let known = vec![account(1, true), account(2, false)];
    let form = SubmissionForm {
        host: " smtp.exemple.fr ".to_owned(),
        ..SubmissionForm::for_account(1)
    };
    let server = set_submission(&form, false, &known).unwrap();
    assert_eq!(server.port, 587);
    assert_eq!(server.username, "marie@exemple.fr");
    let implicit = SubmissionForm {
        port: "587".to_owned(),
        security: "tls".to_owned(),
        ..form.copy()
    };
    let other = set_submission(&implicit, false, &known).unwrap();
    assert_eq!(other.port, 587);
    assert_eq!(other.security.as_str(), "tls");
    assert_eq!(
        submission_text(1, &server),
        "Compte #1 : envoi par smtp.exemple.fr:587 starttls. Rien n'a été envoyé."
    );
    let missing = SubmissionForm {
        account: 9,
        ..form.copy()
    };
    assert_eq!(
        set_submission(&missing, false, &known).unwrap_err(),
        "aucun compte #9"
    );
    let imported = SubmissionForm {
        account: 2,
        ..form.copy()
    };
    assert_eq!(
        set_submission(&imported, false, &known).unwrap_err(),
        "le compte #2 n'a pas de serveur"
    );
    let empty = SubmissionForm::for_account(1);
    assert_eq!(
        set_submission(&empty, true, &known).unwrap_err(),
        "un serveur d'envoi, au minimum"
    );
    assert_eq!(forget_account(1, false, &known), Ok(0));
    assert_eq!(find(&known, 2), Some(1));
    assert_eq!(find(&known, 3), None);
}

#[test]
fn forgetting_says_that_a_token_stays_valid_elsewhere() {
    assert_eq!(
        forgotten_text(3, AuthKind::Password),
        "Compte #3 : secret oublié, synchronisation en pause. Le courrier déjà téléchargé reste."
    );
    assert!(forgotten_text(3, AuthKind::OAuth2).contains("reste valide chez le fournisseur"));
}

#[test]
fn an_account_is_detailed_without_its_secret() {
    let detail = account_detail(&account(4, true), true);
    assert_eq!(detail.server, "imap.exemple.fr:993");
    assert_eq!(detail.security, "tls");
    assert!(detail.secret);
    let imported = account_detail(&account(5, false), true);
    assert_eq!(imported.server, "aucun serveur (compte importé)");
    assert!(!imported.secret);
    assert_eq!(
        address(&server("h", AuthKind::Password)),
        "h:993"
    );
}

#[test]
fn a_consent_is_asked_with_trimmed_fields() {
    let form = ConsentForm {
        host: " h ".to_owned(),
        username: " u ".to_owned(),
        client_id: " c ".to_owned(),
        client_secret: "  ".to_owned(),
        redirect_port: " 8080 ".to_owned(),
    };
    let asked = consent_request(&form);
    assert_eq!(asked.host, "h");
    assert_eq!(asked.client_id, "c");
    assert_eq!(asked.client_secret, None);
    assert_eq!(asked.redirect_port, Some(8080));
    assert!(consent_said("h", "u", ConsentEnd::Stored).is_ok());
    assert_eq!(
        consent_said("h", "u", ConsentEnd::NotStored("plein".to_owned())),
        Err("trousseau : plein".to_owned())
    );
    assert_eq!(
        consent_said("h", "u", ConsentEnd::Refused("non".to_owned())),
        Err("non".to_owned())
    );
    assert!(consent_said("h", "u", ConsentEnd::NoProvider)
        .unwrap_err()
        .starts_with("aucun fournisseur OAuth2 connu pour h."));
}

#[test]
fn clicks_open_and_close_what_they_name() {
    let mut page = Page {
        accounts: vec![an_account()],
        ..Page::opened(false)
    };
    assert!(matches!(page.click(Click::Consent(0)), Outcome::Idle));
    assert_eq!(
        page.consenting.as_ref().map(|it| it.host.as_str()),
        Some("imap.gmail.com")
    );
    assert!(matches!(page.click(Click::OpenBrowser), Outcome::Idle));
    if let Some(form) = page.consenting.as_mut() {
        form.client_id = "id".to_owned();
    }
    assert!(matches!(page.click(Click::OpenBrowser), Outcome::Consent(_)));
    assert!(matches!(page.click(Click::CancelConsent), Outcome::Idle));
    assert!(page.consenting.is_none());
    assert!(matches!(page.click(Click::Sync(0)), Outcome::Sync(1)));
    assert!(matches!(page.click(Click::Sync(7)), Outcome::Idle));
    assert!(matches!(page.click(Click::ConfirmForget(0)), Outcome::Idle));
    page.click(Click::Forget(0));
    assert_eq!(page.forgetting, Some(1));
    page.click(Click::KeepSecret(0));
    assert_eq!(page.forgetting, None);
    page.click(Click::Forget(0));
    assert!(matches!(
        page.click(Click::ConfirmForget(0)),
        Outcome::Forget(1)
    ));
    page.click(Click::Sending(0));
    assert!(matches!(page.click(Click::SaveSubmission), Outcome::Idle));
    page.click(Click::UseSuggestion);
    assert!(matches!(
        page.click(Click::SaveSubmission),
        Outcome::Submission(_)
    ));
    page.click(Click::CancelSubmission);
    assert!(page.submitting.is_none());
    page.click(Click::Declare);
    assert!(matches!(page.click(Click::SaveDeclaration), Outcome::Idle));
    page.click(Click::CancelDeclaration);
    assert!(page.declaring.is_none());
}

#[test]
fn a_remote_page_opens_no_form_that_writes() {
    let mut page = Page {
        accounts: vec![an_account()],
        ..Page::opened(true)
    };
    for click in [
        Click::Declare,
        Click::Sending(0),
        Click::Consent(0),
        Click::Forget(0),
    ] {
        assert!(matches!(page.click(click), Outcome::Idle));
    }
    assert!(page.declaring.is_none());
    assert!(page.submitting.is_none());
    assert!(page.consenting.is_none());
    assert_eq!(page.forgetting, None);
}

#[test]
fn words_name_modes_and_ports() {
    assert_eq!(Security::parse("tls"), Some(Security::Tls));
    assert_eq!(Security::parse("TLS"), None);
    assert_eq!(Security::StartTls.as_str(), "starttls");
    assert_eq!(Security::StartTls.default_port(), 143);
    assert_eq!(Security::Tls.submission_port(), 465);
    assert_eq!(AuthKind::parse("oauth2"), Some(AuthKind::OAuth2));
    assert_eq!(AuthKind::Password.as_str(), "password");
    assert_eq!(parse_port("65535"), Some(65535));
    assert_eq!(parse_port("65536"), None);
    assert_eq!(parse_port("+25"), Some(25));
    assert_eq!(parse_port("+"), None);
    assert_eq!(parse_port("-1"), None);
    assert_eq!(choose_port("  ", 7), Ok(7));
    assert_eq!(choose_port(" x ", 7), Err("x".to_owned()));
    assert_eq!(suggest_submission("imap.exemple.fr"), "smtp.exemple.fr");
    assert_eq!(suggest_submission("mail.exemple.fr"), "mail.exemple.fr");
}
