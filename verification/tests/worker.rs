use mailclient::compose::Compose;
use mailclient::dto::{Attached, Folder, Page};
use mailclient::protocol::{
    decode, describe, logged, route, serve, shape, staged, what, wrote, Answer, Decision, Decoded, Method,
    Param, Reply, Request, Route, Shape, SourceOf,
};
use mailclient::settings::SubmissionForm;
use mailclient::signature::{Block, Document, Span, Style};
use mailclient::worker::{
    announce, attached, bootstrap, named, opening_folder, screen_of, stage_failed, stage_refusal,
    Ask, Heard, Screen, StageStop, Subscription,
};

fn folder(id: i64, kind: &str, total: u64) -> Folder {
    Folder {
        id,
        account: "a".to_owned(),
        path: "p".to_owned(),
        kind: kind.to_owned(),
        total,
        unread: 0,
    }
}

fn down() -> Reply {
    Reply::Failed {
        what: "page",
        message: "m".to_owned(),
        transport: true,
    }
}

#[test]
fn a_request_names_its_method_and_its_parameters() {
    let request = Request::Page {
        folder: 3,
        after: Some("c".to_owned()),
        limit: 100,
    };
    let call = describe(&request);
    assert_eq!(call.what, "page");
    assert_eq!(call.method, Method::MessagesPage);
    let params = call.params.unwrap();
    assert_eq!(params[0].0, "folder");
    assert!(matches!(params[0].1, Param::Int(3)));
    assert!(matches!(params[1].1, Param::Text("c")));
    assert!(describe(&Request::Hello).params.is_none());
    assert_eq!(
        describe(&Request::Source {
            of: SourceOf::Outgoing(2)
        })
        .method,
        Method::OutboxSource
    );
}

#[test]
fn a_message_to_send_splits_its_fields() {
    let request = Request::Send(Box::new(Compose {
        to: "a@b.fr; c@d.fr,".to_owned(),
        bcc: "e@f.fr".to_owned(),
        ..Compose::default()
    }));
    let call = describe(&request);
    let params = call.params.unwrap();
    let to = params.iter().find(|it| it.0 == "to").unwrap();
    match &to.1 {
        Param::Texts(found) => assert_eq!(found, &vec!["a@b.fr", "c@d.fr"]),
        _ => panic!("recipients were expected"),
    }
}

#[test]
fn a_draft_is_saved_as_it_was_typed() {
    let request = Request::SaveDraft(Box::new(Compose {
        to: "a@b.fr; mar".to_owned(),
        subject: "  en cours".to_owned(),
        draft: Some(4),
        ..Compose::default()
    }));
    let params = describe(&request).params.unwrap();
    let of = |name: &str| &params.iter().find(|it| it.0 == name).unwrap().1;
    assert!(matches!(of("id"), Param::Int(4)));
    assert!(matches!(of("to"), Param::Text("a@b.fr; mar")));
    assert!(matches!(of("subject"), Param::Text("  en cours")));
    assert!(matches!(of("in_reply_to"), Param::Null));
    assert!(matches!(of("sign"), Param::Flag(true)));
}

#[test]
fn a_log_names_a_request_and_its_fields() {
    assert_eq!(logged(&Request::Hello), "Hello");
    assert_eq!(
        logged(&Request::Page {
            folder: -3,
            after: Some("c\"1".to_owned()),
            limit: 100
        }),
        "Page { folder: -3, after: Some(\"c\\\"1\"), limit: 100 }"
    );
    assert_eq!(
        logged(&Request::Decide {
            id: 2,
            decision: Decision::Resend
        }),
        "Decide { id: 2, decision: \"resend\" }"
    );
    assert_eq!(
        logged(&Request::Source {
            of: SourceOf::Outgoing(2)
        }),
        "Source { of: Outgoing(2) }"
    );
    let compose = Compose {
        to: "a@b.fr".to_owned(),
        references: vec!["<m>".to_owned(), "<n>".to_owned()],
        attachments: vec![Attached {
            filename: "f".to_owned(),
            blob: "b".to_owned(),
            size: 1,
        }],
        draft: Some(4),
        ..Compose::default()
    };
    let printed = format!("{compose:?}");
    assert_eq!(
        logged(&Request::Send(Box::new(compose))),
        format!("Send({printed})")
    );
    let signature = Document {
        text: "é\n".to_owned(),
        spans: vec![Span {
            at: 0,
            len: 2,
            style: Style {
                bold: true,
                italic: false,
                link: Some("l".to_owned()),
            },
        }],
        blocks: vec![Block::Paragraph, Block::Bullet],
    };
    let printed = format!("{signature:?}");
    assert_eq!(
        logged(&Request::SetSignature {
            account: 1,
            signature: Some(signature)
        }),
        format!("SetSignature {{ account: 1, signature: Some({printed}) }}")
    );
    let form = SubmissionForm::for_account(7);
    let printed = format!("{form:?}");
    assert_eq!(
        logged(&Request::SetSubmission(Box::new(form))),
        format!("SetSubmission({printed})")
    );
}

#[test]
fn a_form_goes_through_no_method() {
    assert_eq!(
        route(&Request::ForgetAccount { id: 1 }),
        Route::Accounts
    );
    assert_eq!(route(&Request::Bootstrap { limit: 1 }), Route::FirstScreen);
    assert_eq!(
        route(&Request::Attach {
            path: "p".to_owned()
        }),
        Route::Stage
    );
    assert_eq!(route(&Request::Hello), Route::Call);
    assert!(describe(&Request::AccountsDetail).params.is_none());
    assert_eq!(what(&Request::AccountsDetail), "compte");
}

#[test]
fn an_answer_becomes_the_reply_of_its_request() {
    assert_eq!(shape(&Request::Folders), Some(Shape::Folders));
    let reply = decode(Request::Folders, Decoded::Folders(vec![folder(1, "x", 2)]));
    assert!(matches!(reply, Ok(Reply::Folders(found)) if found.len() == 1));
    let unread = decode(Request::Folders, Decoded::Unreadable("non".to_owned()));
    assert!(unread.is_err());
    let refused = serve(
        Request::Decide {
            id: 1,
            decision: Decision::Resend,
        },
        Answer::Refused("non".to_owned()),
    );
    assert!(
        matches!(refused, Reply::Failed { what: "décision", message, transport: false } if message == "non")
    );
    let cut = serve(Request::Hello, Answer::Down("coupé".to_owned()));
    assert!(matches!(cut, Reply::Failed { transport: true, .. }));
    assert!(matches!(
        wrote(Err("e".to_owned())),
        Reply::Failed { what: "compte", .. }
    ));
    assert!(matches!(wrote(Ok("fait".to_owned())), Reply::AccountWritten(_)));
    assert_eq!(Decision::parse("resend"), Some(Decision::Resend));
    assert_eq!(Decision::parse("autre"), None);
    assert_eq!(Decision::Accept.as_str(), "accept");
}

#[test]
fn a_return_is_announced_once() {
    assert_eq!(announce(false, &down()), (true, false));
    assert_eq!(announce(true, &Reply::Acknowledged), (false, true));
    assert_eq!(announce(false, &Reply::Acknowledged), (false, false));
}

#[test]
fn a_failure_is_told_once_for_each_episode() {
    let mut it = Subscription::new();
    assert!(matches!(it.next(), Ask::Revision));
    let step = it.hear(Heard::Down("coupé".to_owned()));
    assert_eq!(step.replies.len(), 1);
    assert!(step.rest);
    let step = it.hear(Heard::Down("coupé".to_owned()));
    assert!(step.replies.is_empty());
    let step = it.hear(Heard::Revision("r1".to_owned()));
    assert!(step.replies.is_empty());
    match it.next() {
        Ask::Wait {
            revision,
            timeout_ms,
        } => assert_eq!((revision.as_str(), timeout_ms), ("r1", 30_000)),
        Ask::Revision => panic!("a wait was expected"),
    }
    let step = it.hear(Heard::Change {
        changed: false,
        revision: "r1".to_owned(),
    });
    assert_eq!(step.replies.len(), 1);
    assert!(matches!(step.replies[0], Reply::Online));
    let step = it.hear(Heard::Change {
        changed: true,
        revision: "r2".to_owned(),
    });
    assert!(matches!(step.replies[0], Reply::Changed));
    assert_eq!(it.known.as_deref(), Some("r2"));
}

#[test]
fn the_inbox_opens_first_and_otherwise_the_first() {
    assert_eq!(opening_folder(&Vec::new()), None);
    assert_eq!(
        opening_folder(&vec![folder(1, "sent", 9), folder(2, "inbox", 1)]),
        Some(2)
    );
    assert_eq!(
        opening_folder(&vec![folder(1, "sent", 9), folder(2, "autre", 12)]),
        Some(1)
    );
}

#[test]
fn the_first_screen_needs_two_answers() {
    match screen_of(Answer::Done(Decoded::Folders(vec![folder(4, "inbox", 1)]))) {
        Screen::Page { folders, folder } => {
            assert_eq!(folder, 4);
            let page = Page {
                rows: Vec::new(),
                next: None,
            };
            let reply = bootstrap(folders, folder, Answer::Done(Decoded::Page(page)));
            assert!(matches!(reply, Reply::Bootstrap { folder: 4, .. }));
        }
        Screen::Reply(_) => panic!("a page was expected"),
    }
    match screen_of(Answer::Down("coupé".to_owned())) {
        Screen::Reply(Reply::Failed { transport, .. }) => assert!(transport),
        _ => panic!("a failure was expected"),
    }
}

#[test]
fn a_file_is_staged_under_its_own_name() {
    let file = attached("/home/marie/été.pdf", "b1".to_owned(), 12);
    assert_eq!(file.filename, "été.pdf");
    assert_eq!(file.blob, "b1");
    assert_eq!(file.size, 12);
    assert_eq!(attached("/", "b".to_owned(), 1).filename, "piece-jointe");
    assert_eq!(attached("devis.pdf", "b".to_owned(), 1).filename, "devis.pdf");
    assert_eq!(attached("a/..", "b".to_owned(), 1).filename, "piece-jointe");
    assert_eq!(attached("/usr/bin/", "b".to_owned(), 1).filename, "bin");
    assert_eq!(attached("a.pdf/.//", "b".to_owned(), 1).filename, "a.pdf");
    assert_eq!(attached("./.", "b".to_owned(), 1).filename, "piece-jointe");
    assert_eq!(named(None, "b".to_owned(), 1).filename, "piece-jointe");
    assert!(stage_refusal(true).is_some());
    assert!(stage_refusal(false).is_none());
    assert!(stage_failed("/x", StageStop::Open, "absent").contains("absent"));
    let reply = staged(Ok(Attached {
        filename: "f".to_owned(),
        blob: "b".to_owned(),
        size: 1,
    }));
    assert!(matches!(reply, Reply::Attached(_)));
    assert!(matches!(
        staged(Err("non".to_owned())),
        Reply::Failed {
            what: "pièce jointe",
            transport: false,
            ..
        }
    ));
}
