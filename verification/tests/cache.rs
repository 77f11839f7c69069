use mailclient::cache::{cache_file, Snapshot, MAX_ROWS};
use mailclient::dto::{Folder, Row};

fn row(id: i64) -> Row {
    Row {
        id,
        date: 0,
        from: "a@b.c".to_owned(),
        from_name: None,
        subject: "s".to_owned(),
        has_attachments: false,
        unread: false,
        flagged: false,
    }
}

#[test]
fn a_host_never_escapes_its_directory() {
    for hostile in [
        "../../ailleurs",
        "..\\..\\ailleurs",
        "hôte:7847",
        "/etc/passwd",
        "a/b/c",
        "..",
        "",
    ] {
        let name = cache_file(hostile);
        assert!(
            name.starts_with("cache-") && name.ends_with(".json"),
            "nom inattendu : {name}"
        );
        assert!(
            !name.contains('/') && !name.contains('\\'),
            "séparateur dans le nom : {name}"
        );
    }
    assert_eq!(cache_file("hôte:7847"), "cache-h_te_7847.json");
}

#[test]
fn the_name_stays_bounded() {
    let long = "a".repeat(4_000);
    let name = cache_file(&long);
    assert!(name.len() <= 64 + 12, "nom de {} caractères", name.len());
}

#[test]
fn a_snapshot_is_bounded_in_rows() {
    let rows: Vec<Row> = (0..MAX_ROWS * 3).map(|_| row(1)).collect();
    let snapshot = Snapshot::new(1, String::new(), Vec::new(), Some(1), &rows);
    assert_eq!(snapshot.rows.len(), MAX_ROWS);
}

#[test]
fn an_empty_snapshot_is_not_written() {
    let snapshot = Snapshot::new(1, String::new(), Vec::new(), None, &Vec::new());
    assert!(!snapshot.worth_writing());
}

#[test]
fn a_snapshot_of_another_protocol_is_not_used() {
    let folder = Folder {
        id: 7,
        account: "a".to_owned(),
        path: "INBOX".to_owned(),
        kind: "inbox".to_owned(),
        total: 2,
        unread: 1,
    };
    let snapshot = Snapshot::new(3, "r1".to_owned(), vec![folder], Some(7), &vec![row(5), row(6)]);
    assert!(snapshot.worth_writing());
    assert_eq!(snapshot.rows[1].id, 6);
    let kept = snapshot.usable(3).unwrap();
    assert_eq!(kept.folder, Some(7));
    assert_eq!(kept.revision, "r1");
    assert!(kept.usable(4).is_none());
}

#[test]
fn two_hosts_have_two_files() {
    assert_eq!(cache_file("mail.x.fr:7847"), "cache-mail.x.fr_7847.json");
    assert_ne!(cache_file("mail.x.fr:7847"), cache_file("mail.x.fr:7848"));
    assert_ne!(cache_file("mail.x.fr:7847"), cache_file("mail.x.fr-7847"));
}
