use mailclient::dto::{Message, Row};
use mailclient::quote::{elide, forwarded, quote_body, quoted, sender_label, truncate, QUOTE_MAX};

fn opened(from: &str, name: Option<&str>, to: &[&str], body: &str) -> Message {
    Message {
        row: Row {
            id: 1,
            date: 1_789_041_600,
            from: from.to_owned(),
            from_name: name.map(ToOwned::to_owned),
            subject: "Le sujet".to_owned(),
            unread: false,
            flagged: false,
            has_attachments: false,
        },
        message_id: Some("<parent@exemple.fr>".to_owned()),
        references: Vec::new(),
        to: to.iter().map(|it| (*it).to_owned()).collect(),
        body: body.to_owned(),
        body_truncated: false,
        html: None,
        attachments: Vec::new(),
        folders: Vec::new(),
        thread: None,
        invitation: None,
    }
}

#[test]
fn a_quote_carries_an_attribution_line_and_prefixes_every_line() {
    let message = opened(
        "eloise@exemple.fr",
        Some("Éloïse Durand"),
        &["moi@exemple.fr"],
        "Bonjour,\n\nVoici le rapport.",
    );
    let quote = quoted(&message);
    assert!(quote.starts_with("\n\n"), "l'utilisateur écrit au-dessus");
    assert!(
        quote.contains("Éloïse Durand <eloise@exemple.fr> a écrit :"),
        "{quote}"
    );
    for line in quote.lines().skip(3) {
        assert!(line.starts_with('>'), "ligne non citée : {line:?}");
    }
    assert!(quote.contains("> Voici le rapport."));
}

#[test]
fn a_forward_names_the_original_and_does_not_quote_it() {
    let message = opened(
        "eloise@exemple.fr",
        Some("Éloïse"),
        &["moi@exemple.fr", "jean@ailleurs.fr"],
        "Le corps d'origine.",
    );
    let text = forwarded(&message);
    assert!(text.contains("-------- Message transféré --------"));
    assert!(text.contains("De : Éloïse <eloise@exemple.fr>"));
    assert!(text.contains("Sujet : Le sujet"));
    assert!(text.contains("À : moi@exemple.fr, jean@ailleurs.fr"));
    assert!(text.contains("Le corps d'origine."));
    assert!(!text.contains("> Le corps"), "un transfert ne cite pas");
}

#[test]
fn a_quote_is_bounded_and_says_so() {
    let long = "x".repeat(QUOTE_MAX * 2);
    let message = opened("a@b.fr", None, &["moi@exemple.fr"], &long);
    let quote = quoted(&message);
    assert!(quote.contains("citation tronquée"), "la coupe est muette");
    assert!(quote.len() < QUOTE_MAX + 4096);
}

#[test]
fn a_quote_never_cuts_a_character_in_half() {
    let accents = "é".repeat(QUOTE_MAX);
    let message = opened("a@b.fr", None, &["moi@exemple.fr"], &accents);
    let quote = quoted(&message);
    assert!(quote.contains("citation tronquée"));
    assert!(quote.chars().count() > 1_000);
}

#[test]
fn a_sender_without_a_name_is_named_by_its_address_alone() {
    let message = opened("a@b.fr", None, &["moi@exemple.fr"], "corps");
    assert_eq!(sender_label(&message), "a@b.fr");
    let message = opened("a@b.fr", Some("a@b.fr"), &["moi@exemple.fr"], "corps");
    assert_eq!(sender_label(&message), "a@b.fr");
    let message = opened("a@b.fr", Some("  "), &["moi@exemple.fr"], "corps");
    assert_eq!(sender_label(&message), "a@b.fr");
}

#[test]
fn elision_cuts_on_character_boundaries() {
    assert_eq!(elide("court", 10), "court");
    assert_eq!(elide("éééééé", 3), "éé…");
}

#[test]
fn truncation_never_splits_a_character() {
    let long = "Ééééééééééééééééééééééééééééééééé";
    let cut = truncate(long, 10);
    assert_eq!(cut.chars().count(), 10);
    assert!(cut.ends_with('…'));
}

#[test]
fn a_short_name_is_padded_so_columns_line_up() {
    assert_eq!(truncate("ab", 5).chars().count(), 5);
}

#[test]
fn the_exact_quote_of_a_short_body() {
    let message = opened("a@b.fr", None, &["moi@exemple.fr"], "un\n\ndeux");
    assert_eq!(
        quoted(&message),
        "\n\nLe 10 septembre 2026 à 12:00, a@b.fr a écrit :\n> un\n> \n> deux\n"
    );
    assert_eq!(
        forwarded(&message),
        "\n\n-------- Message transféré --------\nDe : a@b.fr\nDate : 10 septembre 2026 à 12:00\nSujet : Le sujet\nÀ : moi@exemple.fr\n\nun\n\ndeux"
    );
}

#[test]
fn a_body_of_the_bound_is_whole_and_one_more_byte_is_cut() {
    let whole = "x".repeat(QUOTE_MAX);
    assert_eq!(quote_body(&whole), whole);
    let cut = quote_body(&format!("{whole}x"));
    assert_eq!(cut, format!("{whole}\n[…] (citation tronquée)"));
    let odd = format!("x{}", "é".repeat(QUOTE_MAX / 2));
    assert_eq!(
        quote_body(&odd),
        format!(
            "x{}\n[…] (citation tronquée)",
            "é".repeat(QUOTE_MAX / 2 - 1)
        )
    );
}

#[test]
fn elision_to_nothing_leaves_the_mark_alone() {
    assert_eq!(elide("abc", 0), "…");
    assert_eq!(elide("", 0), "");
    assert_eq!(truncate("ab", 5), "ab   ");
    assert_eq!(truncate("abcdef", 3), "ab…");
}

#[test]
fn a_quotation_of_many_lines_is_bounded_too() {
    for body in ["\n".repeat(QUOTE_MAX), "a\r\n".repeat(QUOTE_MAX), "é\n".repeat(QUOTE_MAX)] {
        let message = opened("a@b.fr", None, &["moi@exemple.fr"], &body);
        let quote = quoted(&message);
        assert!(quote.len() < QUOTE_MAX + 4096, "{}", quote.len());
        assert!(quote.ends_with("\n> […] (citation tronquée)\n"));
        for line in quote.lines().skip(3) {
            assert!(line.starts_with("> "), "ligne non citée : {line:?}");
        }
    }
}

#[test]
fn a_quotation_is_cut_where_its_marks_would_pass_the_bound() {
    let head = "\n\nLe 10 septembre 2026 à 12:00, a@b.fr a écrit :\n";
    let whole = "x".repeat(QUOTE_MAX - 3);
    let quote = quoted(&opened("a@b.fr", None, &[], &whole));
    assert_eq!(quote, format!("{head}> {whole}\n"));
    let quote = quoted(&opened("a@b.fr", None, &[], &format!("{whole}y")));
    assert_eq!(quote, format!("{head}> {whole}\n> […] (citation tronquée)\n"));
    let quote = quoted(&opened("a@b.fr", None, &[], &format!("{whole}\ny")));
    assert_eq!(quote, format!("{head}> {whole}\n> […] (citation tronquée)\n"));
    let quote = quoted(&opened("a@b.fr", None, &[], &format!("un\n{whole}")));
    let part = "x".repeat(QUOTE_MAX - 8);
    assert_eq!(quote, format!("{head}> un\n> {part}\n> […] (citation tronquée)\n"));
}
