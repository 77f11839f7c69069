use mailclient::compose::Compose;
use mailclient::recipients::{last_fragment, recipients, replace_last};

#[test]
fn the_fragment_completed_is_the_last_one_not_the_whole_field() {
    assert_eq!(last_fragment("jean@x.fr, mar"), "mar");
    assert_eq!(last_fragment("jean@x.fr; mar"), "mar");
    assert_eq!(last_fragment("mar"), "mar");
    assert_eq!(last_fragment("  mar  "), "mar");
}

#[test]
fn a_field_that_ends_on_a_separator_completes_from_nothing() {
    assert_eq!(last_fragment("jean@x.fr,"), "");
    assert_eq!(last_fragment("jean@x.fr, "), "");
    assert_eq!(last_fragment(""), "");
}

#[test]
fn inserting_keeps_the_recipients_already_typed() {
    assert_eq!(
        replace_last("jean@x.fr, mar", "Marie <marie@y.fr>"),
        "jean@x.fr, Marie <marie@y.fr>, "
    );
    assert_eq!(
        replace_last("jean@x.fr, paul@z.fr, mar", "marie@y.fr"),
        "jean@x.fr, paul@z.fr, marie@y.fr, "
    );
}

#[test]
fn inserting_into_an_empty_field_leaves_only_the_chosen_address() {
    assert_eq!(replace_last("", "marie@y.fr"), "marie@y.fr, ");
    assert_eq!(replace_last("mar", "marie@y.fr"), "marie@y.fr, ");
}

#[test]
fn semicolons_are_normalised_to_commas() {
    assert_eq!(
        replace_last("jean@x.fr; mar", "marie@y.fr"),
        "jean@x.fr, marie@y.fr, "
    );
}

#[test]
fn the_result_always_ends_ready_for_the_next_one() {
    for (field, chosen) in [("", "a@b.fr"), ("x@y.fr, ", "a@b.fr"), ("z", "a@b.fr")] {
        let out = replace_last(field, chosen);
        assert!(out.ends_with(", "), "{out:?}");
    }
}

#[test]
fn a_field_of_only_separators_does_not_leave_a_stray_comma() {
    assert_eq!(replace_last(",", "a@b.fr"), "a@b.fr, ");
    assert_eq!(replace_last(" , ", "a@b.fr"), "a@b.fr, ");
    assert_eq!(replace_last(" ; , ", "a@b.fr"), "a@b.fr, ");
}

#[test]
fn a_field_of_addresses_splits_on_commas_and_semicolons() {
    assert_eq!(
        Compose::recipients("jean@x.fr, marie@y.fr; paul@z.fr"),
        vec!["jean@x.fr", "marie@y.fr", "paul@z.fr"]
    );
}

#[test]
fn a_trailing_separator_is_not_an_empty_recipient() {
    assert_eq!(Compose::recipients("jean@x.fr,"), vec!["jean@x.fr"]);
    assert_eq!(Compose::recipients("  ,  ; "), Vec::<String>::new());
    assert_eq!(Compose::recipients(""), Vec::<String>::new());
}

#[test]
fn a_recipient_is_trimmed_but_never_otherwise_touched() {
    let hostile = "jean@x.fr\r\nRCPT TO:<ailleurs@y.fr>";
    assert_eq!(
        Compose::recipients(&format!("  {hostile}  ")),
        vec![hostile]
    );
}

#[test]
fn a_draft_with_only_a_blind_copy_is_sendable() {
    let it = Compose {
        bcc: "discret@x.fr".to_owned(),
        ..Compose::default()
    };
    assert!(it.is_sendable());
}

#[test]
fn a_draft_without_any_recipient_is_not_sendable() {
    let it = Compose {
        subject: "un sujet".to_owned(),
        text: "un corps".to_owned(),
        ..Compose::default()
    };
    assert!(!it.is_sendable());

    let whitespace = Compose {
        to: "   ".to_owned(),
        cc: " , ".to_owned(),
        ..Compose::default()
    };
    assert!(!whitespace.is_sendable());
}

#[test]
fn choosing_leaves_no_fragment_and_keeps_every_recipient() {
    let field = replace_last("a@x.fr; b@x.fr, c", "d@x.fr");
    assert_eq!(last_fragment(&field), "");
    assert_eq!(
        Compose::recipients(&field),
        vec!["a@x.fr", "b@x.fr", "d@x.fr"]
    );
}

#[test]
fn a_message_signs_unless_it_is_told_not_to() {
    let it = Compose::default();
    assert!(it.sign);
    assert_eq!(it.draft, None);
    assert!(it.attachments.is_empty());
}

#[test]
fn fields_put_together_name_the_recipients_of_both() {
    assert_eq!(recipients(" a@x.fr;,b@x.fr"), vec!["a@x.fr", "b@x.fr"]);
    assert_eq!(recipients(" a@x.fr;,b@x.fr; c@x.fr "), vec!["a@x.fr", "b@x.fr", "c@x.fr"]);
    let found = recipients(";a@x.fr ,, Bé <b@x.fr>");
    assert_eq!(recipients(&found.join(", ")), found);
}
