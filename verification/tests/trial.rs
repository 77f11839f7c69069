use mailclient::bench::{Bench, Phase, Verdict};
use mailclient::body::{Block, Kind, Run, RunStyle};
use mailclient::dto::{Folder, Page, Row};
use mailclient::protocol::{Reply, Request};
use mailclient::shell::Shell;
use mailclient::signature::Document;
use mailclient::spike::native::{self, Load, Scroll};
use mailclient::spike::richtext;
use mailclient::trial::{biggest_folder, pasted_html, startup, Progress, Startup, IDLE_FRAMES};

fn row(id: i64) -> Row {
    Row {
        id,
        date: 0,
        from: "a@b.fr".to_owned(),
        from_name: None,
        subject: "s".to_owned(),
        unread: false,
        flagged: false,
        has_attachments: false,
    }
}

fn folder(id: i64, total: u64) -> Folder {
    Folder {
        id,
        account: "a".to_owned(),
        path: "a/b".to_owned(),
        kind: "x".to_owned(),
        total,
        unread: 0,
    }
}

fn loaded(bench: Bench, rows: i64) -> Shell {
    let mut it = Shell::new(4, bench, None, None);
    let mut out = Vec::new();
    it.absorb(
        Reply::Bootstrap {
            folders: vec![folder(1, 5), folder(2, 50)],
            folder: 2,
            page: Page {
                rows: (0..rows).map(row).collect(),
                next: None,
            },
        },
        0,
        &mut out,
    );
    it
}

#[test]
fn the_biggest_folder_is_the_last_of_equals() {
    assert_eq!(biggest_folder(&Vec::new()), None);
    assert_eq!(
        biggest_folder(&vec![folder(1, 5), folder(2, 9), folder(3, 9)]),
        Some(3)
    );
}

#[test]
fn a_scrolling_run_rests_then_scrolls_then_reports() {
    let mut it = loaded(Bench::Scroll, 3);
    let mut out = Vec::new();
    assert_eq!(it.advance_bench(0, true, &mut out), Progress::Loaded);
    for _ in 0..IDLE_FRAMES {
        assert_eq!(it.advance_bench(0, true, &mut out), Progress::Continue);
    }
    assert_eq!(it.trial.state.phase, Phase::Scrolling);
    assert_eq!(it.advance_bench(0, false, &mut out), Progress::Continue);
    let mut last = Progress::Continue;
    for _ in 0..600 {
        last = it.advance_bench(0, true, &mut out);
    }
    assert_eq!(last, Progress::Report);
    assert_eq!(it.trial.state.phase, Phase::Done);
    assert!(out.is_empty());
}

#[test]
fn an_opening_run_without_enough_rows_is_void() {
    let mut it = loaded(Bench::Open, 3);
    let mut out = Vec::new();
    assert_eq!(it.advance_open(&mut out), Progress::TooFew);
}

#[test]
fn an_opening_run_opens_one_message_at_a_time() {
    let mut it = loaded(Bench::Open, 40);
    let mut out = Vec::new();
    it.advance_open(&mut out);
    assert_eq!(it.trial.state.phase, Phase::Opening);
    it.advance_open(&mut out);
    assert!(matches!(out[0], Request::Open { id: 0, .. }));
    assert_eq!(it.advance_open(&mut out), Progress::Continue);
    it.absorb(Reply::Open(None), 0, &mut out);
    assert_eq!(it.advance_open(&mut out), Progress::Empty);
    assert_eq!(it.trial.state.open_empty, 1);
}

#[test]
fn an_outage_is_probed_then_scrolled_through() {
    let mut it = loaded(Bench::Offline, 3);
    let mut out = Vec::new();
    assert_eq!(it.advance_offline(true, &mut out), Progress::Loaded);
    assert_eq!(it.advance_offline(true, &mut out), Progress::Continue);
    assert!(out.is_empty());
    it.notices.offline = Some("coupé".to_owned());
    it.advance_offline(true, &mut out);
    assert_eq!(out.len(), 2);
    assert!(matches!(&out[1], Request::Search { query, .. } if query == "facture"));
    it.trial.probe.open = Some(Verdict::CleanFailure);
    it.trial.probe.search = Some(Verdict::CleanFailure);
    it.advance_offline(true, &mut out);
    assert_eq!(it.trial.state.phase, Phase::Scrolling);
}

#[test]
fn a_signature_run_types_then_pastes() {
    let mut it = loaded(Bench::Signature, 1);
    it.advance_signature(true, None);
    assert_eq!(it.trial.state.phase, Phase::Idle);
    for _ in 0..IDLE_FRAMES {
        it.advance_signature(true, None);
    }
    assert_eq!(it.trial.state.phase, Phase::Typing);
    for _ in 0..240 {
        it.advance_signature(true, None);
    }
    assert_eq!(it.trial.state.phase, Phase::Pasting);
    it.advance_signature(true, Some(Document::empty()));
    assert_eq!(it.trial.state.phase, Phase::AfterPaste);
    assert_eq!(it.writing.editor.as_ref().unwrap().buffer, "");
}

#[test]
fn what_is_pasted_is_just_over_its_size() {
    let html = pasted_html();
    assert!(html.len() > 50_000 && html.len() < 50_200);
    assert!(html.ends_with("puis du texte courant.</p>"));
}

#[test]
fn a_starting_run_closes_on_rows_or_gives_up() {
    assert_eq!(startup(true, 0), Startup::Close);
    assert_eq!(startup(false, 10_000), Startup::Wait);
    assert_eq!(startup(false, 10_001), Startup::GiveUp);
}

#[test]
fn a_rough_date_is_rough() {
    assert_eq!(native::short_date(0), "—");
    assert_eq!(native::short_date(86_400), "02/01/70");
    assert_eq!(native::short_date(86_400 * 365), "01/01/71");
    assert_eq!(native::short_date(86_400 * 364), "24/12/70");
}

#[test]
fn the_measured_list_labels_what_it_has() {
    assert_eq!(native::folder_label("a/b/c", 0), "c");
    assert_eq!(native::folder_label("a", 3), "a  (3)");
    assert_eq!(native::loaded_label(2, 9), "2 chargés sur 9");
    assert_eq!(native::who(&row(1)), "a@b.fr");
    assert_eq!(native::folder(&Vec::new()), Err("aucun dossier dans ce store"));
    assert_eq!(native::folder(&vec![folder(4, 1)]), Ok(4));
    assert_eq!(native::after_page(0, true), Load::Over);
    assert_eq!(native::after_page(5, true), Load::More);
    assert_eq!(native::after_page(5, false), Load::Last);
    assert_eq!(native::bench(Some("offline")), Bench::Off);
    assert_eq!(native::bench(Some("startup")), Bench::Startup);
}

#[test]
fn the_measured_list_scrolls_once_it_is_loaded() {
    let mut run = Scroll::new();
    assert_eq!(run.advance(true, false), native::Step::Wait);
    assert_eq!(run.advance(true, true), native::Step::Loaded);
    assert_eq!(run.advance(false, true), native::Step::CountIdle);
    for _ in 0..native::IDLE_FRAMES {
        assert_eq!(run.advance(true, true), native::Step::CountIdle);
    }
    for _ in 1..native::SCROLL_FRAMES {
        assert_eq!(run.advance(true, true), native::Step::CountScroll);
    }
    assert_eq!(run.advance(true, true), native::Step::Report);
    assert_eq!(run.advance(true, true), native::Step::Wait);
}

#[test]
fn a_generated_document_covers_its_text() {
    let document = richtext::Document::generated(10);
    let mut at = 0;
    for span in &document.spans {
        assert_eq!(span.at, at);
        at += span.len;
    }
    assert_eq!(at, document.text.len());
    assert_eq!(document.glyphs(), document.text.chars().count());
    assert_eq!(document.text.lines().count(), 10);
}

#[test]
fn typing_in_the_middle_moves_what_follows() {
    let mut document = richtext::Document::empty();
    document.push("été", richtext::Style::Strong);
    document.push("fin", richtext::Style::Plain);
    assert_eq!(document.middle(), 3);
    document.type_one('é');
    assert_eq!(document.text, "étééfin");
    assert_eq!((document.spans[0].at, document.spans[0].len), (0, 7));
    assert_eq!((document.spans[1].at, document.spans[1].len), (7, 3));
    for span in &document.spans {
        assert!(document.text.get(span.at..span.at + span.len).is_some());
    }
}

#[test]
fn the_big_paste_is_just_big_enough() {
    let html = richtext::big_html();
    assert!(html.starts_with("<div><p style=") && html.ends_with("</ul></div>"));
    assert!(html.len() >= 50 * 1024);
    assert!(html.len() < 50 * 1024 + 300);
}

#[test]
fn a_paste_keeps_the_styles_in_a_line() {
    let run = |text: &str, bold: bool, link: Option<&str>| Run {
        text: text.to_owned(),
        style: RunStyle {
            bold,
            italic: false,
            code: false,
            strike: false,
            link: link.map(ToOwned::to_owned),
        },
    };
    let pasted = richtext::paste(&vec![
        Block {
            kind: Kind::Item {
                depth: 1,
                ordered: false,
            },
            runs: vec![run("un", true, None), run("lien", true, Some("u"))],
        },
        Block {
            kind: Kind::Quote(0),
            runs: Vec::new(),
        },
        Block {
            kind: Kind::Heading(1),
            runs: vec![run("titre", false, None)],
        },
    ]);
    assert_eq!(pasted.text, "    • unlien\n> titre\n");
    let styles: Vec<richtext::Style> = pasted.spans.iter().map(|it| it.style).collect();
    assert_eq!(
        styles,
        vec![
            richtext::Style::Bullet,
            richtext::Style::Bullet,
            richtext::Style::Strong,
            richtext::Style::Link,
            richtext::Style::Plain,
            richtext::Style::Emphasis,
            richtext::Style::Strong,
            richtext::Style::Plain,
        ]
    );
}

#[test]
fn the_editor_run_goes_through_its_regimes() {
    let mut run = richtext::Probe::new(5);
    let glyphs = run.glyphs;
    let mut counted = 0;
    loop {
        match run.frame() {
            richtext::Step::Wait => {}
            richtext::Step::Count(_) => counted += 1,
            richtext::Step::Paste => run.paste_done(richtext::paste(&Vec::new())),
            richtext::Step::Report => break,
        }
    }
    assert_eq!(counted, 3 * (richtext::FRAMES + 1));
    assert_eq!(run.glyphs, glyphs);
    assert_eq!(run.glyphs_big, 4 * glyphs);
    assert_eq!(run.paste_glyphs, 0);
    assert_eq!(richtext::lines(None), 200);
    assert_eq!(richtext::lines(Some("12")), 12);
    assert_eq!(richtext::lines(Some("douze")), 200);
}
