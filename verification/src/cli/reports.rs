//! The reports of the commands that read or rebuild a store.
//!
//! A duration, a size or a share is given as it is to be shown.
use crate::text;
use vstd::prelude::*;
use vstd::string::*;

verus! {

/// What a store holds.
#[derive(Debug)]
pub struct StoreStats {
    pub accounts: u64,
    pub folders: u64,
    pub messages: u64,
    pub refs: u64,
    pub raw_bytes: u64,
    pub unthreaded: u64,
}

/// What is said of a store.
pub open spec fn stats_text(root: Seq<char>, it: StoreStats, share: Seq<char>, size: Seq<char>) -> Seq<Seq<char>> {
    let s0 = Seq::<Seq<char>>::empty();
    let s1 = s0.push("Store              "@ + root);
    let s2 = s1.push("Comptes            "@ + text::dec(it.accounts as nat));
    let s3 = s2.push("Dossiers           "@ + text::dec(it.folders as nat));
    let s4 = s3.push("Contenus distincts "@ + text::dec(it.messages as nat));
    let s5 = s4.push("Références         "@ + text::dec(it.refs as nat));
    let s6 = s5.push("Réf. par message   "@ + share + "  — au-dessus de 1, la dédup a servi"@);
    let s7 = s6.push("Octets RFC 5322    "@ + size);
    let s8 = if it.unthreaded > 0 {
        s7.push("Sans fil           "@ + text::dec(it.unthreaded as nat) + " — la passe de threading n'est pas passée"@)
    } else {
        s7
    };
    s8
}

/// What is said of a store.
pub fn stats(root: &str, it: &StoreStats, share: &str, size: &str) -> (r: Vec<String>)
    ensures
        text::texts(r@) == stats_text(root@, *it, share@, size@),
{
    let mut out: Vec<String> = Vec::new();
    assert(text::texts(out@) == Seq::<Seq<char>>::empty());
    {
        let mut line = "Store              ".to_owned();
        line.append(root);
        text::say(&mut out, line);
    }
    {
        let mut line = "Comptes            ".to_owned();
        line.append(text::decimal(it.accounts).as_str());
        text::say(&mut out, line);
    }
    {
        let mut line = "Dossiers           ".to_owned();
        line.append(text::decimal(it.folders).as_str());
        text::say(&mut out, line);
    }
    {
        let mut line = "Contenus distincts ".to_owned();
        line.append(text::decimal(it.messages).as_str());
        text::say(&mut out, line);
    }
    {
        let mut line = "Références         ".to_owned();
        line.append(text::decimal(it.refs).as_str());
        text::say(&mut out, line);
    }
    {
        let mut line = "Réf. par message   ".to_owned();
        line.append(share);
        line.append("  — au-dessus de 1, la dédup a servi");
        text::say(&mut out, line);
    }
    {
        let mut line = "Octets RFC 5322    ".to_owned();
        line.append(size);
        text::say(&mut out, line);
    }
    if it.unthreaded > 0 {
        let mut line = "Sans fil           ".to_owned();
        line.append(text::decimal(it.unthreaded).as_str());
        line.append(" — la passe de threading n'est pas passée");
        text::say(&mut out, line);
    }
    out
}

/// What is said of the store of a daemon.
pub open spec fn remote_stats_text(daemon: Seq<char>, it: StoreStats, size: Seq<char>) -> Seq<Seq<char>> {
    let s0 = Seq::<Seq<char>>::empty();
    let s1 = s0.push("Démon              "@ + daemon);
    let s2 = s1.push("Comptes            "@ + text::dec(it.accounts as nat));
    let s3 = s2.push("Dossiers           "@ + text::dec(it.folders as nat));
    let s4 = s3.push("Contenus uniques   "@ + text::dec(it.messages as nat));
    let s5 = s4.push("Références         "@ + text::dec(it.refs as nat));
    let s6 = s5.push("Octets RFC 5322    "@ + size);
    let s7 = if it.unthreaded > 0 {
        s6.push("Non rattachés      "@ + text::dec(it.unthreaded as nat) + " — lancer `mail thread --daemon "@ + daemon + "`"@)
    } else {
        s6
    };
    s7
}

/// What is said of the store of a daemon.
pub fn remote_stats(daemon: &str, it: &StoreStats, size: &str) -> (r: Vec<String>)
    ensures
        text::texts(r@) == remote_stats_text(daemon@, *it, size@),
{
    let mut out: Vec<String> = Vec::new();
    assert(text::texts(out@) == Seq::<Seq<char>>::empty());
    {
        let mut line = "Démon              ".to_owned();
        line.append(daemon);
        text::say(&mut out, line);
    }
    {
        let mut line = "Comptes            ".to_owned();
        line.append(text::decimal(it.accounts).as_str());
        text::say(&mut out, line);
    }
    {
        let mut line = "Dossiers           ".to_owned();
        line.append(text::decimal(it.folders).as_str());
        text::say(&mut out, line);
    }
    {
        let mut line = "Contenus uniques   ".to_owned();
        line.append(text::decimal(it.messages).as_str());
        text::say(&mut out, line);
    }
    {
        let mut line = "Références         ".to_owned();
        line.append(text::decimal(it.refs).as_str());
        text::say(&mut out, line);
    }
    {
        let mut line = "Octets RFC 5322    ".to_owned();
        line.append(size);
        text::say(&mut out, line);
    }
    if it.unthreaded > 0 {
        let mut line = "Non rattachés      ".to_owned();
        line.append(text::decimal(it.unthreaded).as_str());
        line.append(" — lancer `mail thread --daemon ");
        line.append(daemon);
        line.append("`");
        text::say(&mut out, line);
    }
    out
}

/// What an indexing came to.
#[derive(Debug)]
pub struct IndexStats {
    pub indexed: u64,
    /// Messages that could not be read, indexed on what is known of them.
    pub degraded: u64,
    pub missing_blobs: u64,
}

/// What is said of an indexing.
pub open spec fn index_text(elapsed: Seq<char>, it: IndexStats, size: Seq<char>) -> Seq<Seq<char>> {
    let s0 = Seq::<Seq<char>>::empty();
    let s1 = s0.push("Durée              "@ + elapsed);
    let s2 = s1.push("Messages indexés   "@ + text::dec(it.indexed as nat));
    let s3 = s2.push("Texte indexé       "@ + size);
    let s4 = if it.degraded > 0 {
        s3.push("MIME illisible     "@ + text::dec(it.degraded as nat) + " — indexés sur leurs métadonnées"@)
    } else {
        s3
    };
    let s5 = if it.missing_blobs > 0 {
        s4.push("Blobs absents      "@ + text::dec(it.missing_blobs as nat) + " — voir `mail doctor`"@)
    } else {
        s4
    };
    s5
}

/// What is said of an indexing.
pub fn index(elapsed: &str, it: &IndexStats, size: &str) -> (r: Vec<String>)
    ensures
        text::texts(r@) == index_text(elapsed@, *it, size@),
{
    let mut out: Vec<String> = Vec::new();
    assert(text::texts(out@) == Seq::<Seq<char>>::empty());
    {
        let mut line = "Durée              ".to_owned();
        line.append(elapsed);
        text::say(&mut out, line);
    }
    {
        let mut line = "Messages indexés   ".to_owned();
        line.append(text::decimal(it.indexed).as_str());
        text::say(&mut out, line);
    }
    {
        let mut line = "Texte indexé       ".to_owned();
        line.append(size);
        text::say(&mut out, line);
    }
    if it.degraded > 0 {
        let mut line = "MIME illisible     ".to_owned();
        line.append(text::decimal(it.degraded).as_str());
        line.append(" — indexés sur leurs métadonnées");
        text::say(&mut out, line);
    }
    if it.missing_blobs > 0 {
        let mut line = "Blobs absents      ".to_owned();
        line.append(text::decimal(it.missing_blobs).as_str());
        line.append(" — voir `mail doctor`");
        text::say(&mut out, line);
    }
    out
}

/// What a threading came to.
#[derive(Debug)]
pub struct ThreadStats {
    pub threads: u64,
    pub messages: u64,
    pub links_by_references: u64,
    pub links_by_subject: u64,
    pub with_message_id: u64,
    pub with_references: u64,
    pub references_unresolved: u64,
    /// Threads of one message.
    pub singletons: u64,
    /// Groups too big to be a conversation.
    pub subject_groups_rejected: u64,
    pub missing_blobs: u64,
}

/// What is said of a threading; the three shares are those of the messages with an identifier, of
/// the messages with references, and of the threads of one message.
pub open spec fn thread_text(elapsed: Seq<char>, it: ThreadStats, named: Seq<char>, linked: Seq<char>, alone: Seq<char>) -> Seq<Seq<char>> {
    let s0 = Seq::<Seq<char>>::empty();
    let s1 = s0.push("Durée              "@ + elapsed);
    let s2 = s1.push("Fils               "@ + text::dec(it.threads as nat));
    let s3 = s2.push("Messages rattachés "@ + text::dec(it.messages as nat));
    let s4 = s3.push("Liens References   "@ + text::dec(it.links_by_references as nat));
    let s5 = s4.push("Liens par sujet    "@ + text::dec(it.links_by_subject as nat));
    let s6 = s5.push("Avec Message-ID    "@ + text::dec(it.with_message_id as nat) + " ("@ + named + " %)"@);
    let s7 = s6.push("Avec References    "@ + text::dec(it.with_references as nat) + " ("@ + linked + " %)"@);
    let s8 = s7.push("Réf. non résolues  "@ + text::dec(it.references_unresolved as nat) + " — le message parent n'est pas dans le corpus"@);
    let s9 = s8.push("Fils d'un message  "@ + text::dec(it.singletons as nat) + " ("@ + alone + " %)"@);
    let s10 = if it.subject_groups_rejected > 0 {
        s9.push("Sujets écartés     "@ + text::dec(it.subject_groups_rejected as nat) + " groupes trop gros pour être une conversation"@)
    } else {
        s9
    };
    let s11 = if it.missing_blobs > 0 {
        s10.push("Blobs absents      "@ + text::dec(it.missing_blobs as nat) + " — voir `mail doctor`"@)
    } else {
        s10
    };
    s11
}

/// What is said of a threading; the three shares are those of the messages with an identifier, of
/// the messages with references, and of the threads of one message.
pub fn thread(elapsed: &str, it: &ThreadStats, named: &str, linked: &str, alone: &str) -> (r: Vec<String>)
    ensures
        text::texts(r@) == thread_text(elapsed@, *it, named@, linked@, alone@),
{
    let mut out: Vec<String> = Vec::new();
    assert(text::texts(out@) == Seq::<Seq<char>>::empty());
    {
        let mut line = "Durée              ".to_owned();
        line.append(elapsed);
        text::say(&mut out, line);
    }
    {
        let mut line = "Fils               ".to_owned();
        line.append(text::decimal(it.threads).as_str());
        text::say(&mut out, line);
    }
    {
        let mut line = "Messages rattachés ".to_owned();
        line.append(text::decimal(it.messages).as_str());
        text::say(&mut out, line);
    }
    {
        let mut line = "Liens References   ".to_owned();
        line.append(text::decimal(it.links_by_references).as_str());
        text::say(&mut out, line);
    }
    {
        let mut line = "Liens par sujet    ".to_owned();
        line.append(text::decimal(it.links_by_subject).as_str());
        text::say(&mut out, line);
    }
    {
        let mut line = "Avec Message-ID    ".to_owned();
        line.append(text::decimal(it.with_message_id).as_str());
        line.append(" (");
        line.append(named);
        line.append(" %)");
        text::say(&mut out, line);
    }
    {
        let mut line = "Avec References    ".to_owned();
        line.append(text::decimal(it.with_references).as_str());
        line.append(" (");
        line.append(linked);
        line.append(" %)");
        text::say(&mut out, line);
    }
    {
        let mut line = "Réf. non résolues  ".to_owned();
        line.append(text::decimal(it.references_unresolved).as_str());
        line.append(" — le message parent n'est pas dans le corpus");
        text::say(&mut out, line);
    }
    {
        let mut line = "Fils d'un message  ".to_owned();
        line.append(text::decimal(it.singletons).as_str());
        line.append(" (");
        line.append(alone);
        line.append(" %)");
        text::say(&mut out, line);
    }
    if it.subject_groups_rejected > 0 {
        let mut line = "Sujets écartés     ".to_owned();
        line.append(text::decimal(it.subject_groups_rejected).as_str());
        line.append(" groupes trop gros pour être une conversation");
        text::say(&mut out, line);
    }
    if it.missing_blobs > 0 {
        let mut line = "Blobs absents      ".to_owned();
        line.append(text::decimal(it.missing_blobs).as_str());
        line.append(" — voir `mail doctor`");
        text::say(&mut out, line);
    }
    out
}

/// What a rebuilding of the address book came to.
#[derive(Debug)]
pub struct ContactStats {
    pub scanned: u64,
    pub addresses: u64,
    /// Messages that were sent: half of what the order rests on.
    pub outgoing: u64,
    pub missing: u64,
}

/// What is said of a rebuilding of the address book. That no message was sent is said, because the
/// order then rests on half of what it should.
pub open spec fn contacts_text(it: ContactStats, elapsed: Seq<char>) -> Seq<Seq<char>> {
    let s0 = Seq::<Seq<char>>::empty();
    let s1 = s0.push("Messages parcourus "@ + text::dec(it.scanned as nat));
    let s2 = s1.push("Adresses retenues  "@ + text::dec(it.addresses as nat));
    let s3 = s2.push("Messages envoyés   "@ + text::dec(it.outgoing as nat));
    let s4 = if it.missing > 0 {
        s3.push("Blobs absents      "@ + text::dec(it.missing as nat))
    } else {
        s3
    };
    let s5 = s4.push("Durée              "@ + elapsed + "s"@);
    let s6 = if it.outgoing == 0 && it.scanned > 0 {
        s5.push(""@)
    } else {
        s5
    };
    let s7 = if it.outgoing == 0 && it.scanned > 0 {
        s6.push("Aucun message envoyé reconnu : le classement n'a qu'un signal sur deux. Vérifier que les dossiers d'envoi des comptes sont bien synchronisés."@)
    } else {
        s6
    };
    s7
}

/// What is said of a rebuilding of the address book. That no message was sent is said, because the
/// order then rests on half of what it should.
pub fn contacts(it: &ContactStats, elapsed: &str) -> (r: Vec<String>)
    ensures
        text::texts(r@) == contacts_text(*it, elapsed@),
{
    let mut out: Vec<String> = Vec::new();
    assert(text::texts(out@) == Seq::<Seq<char>>::empty());
    {
        let mut line = "Messages parcourus ".to_owned();
        line.append(text::decimal(it.scanned).as_str());
        text::say(&mut out, line);
    }
    {
        let mut line = "Adresses retenues  ".to_owned();
        line.append(text::decimal(it.addresses).as_str());
        text::say(&mut out, line);
    }
    {
        let mut line = "Messages envoyés   ".to_owned();
        line.append(text::decimal(it.outgoing).as_str());
        text::say(&mut out, line);
    }
    if it.missing > 0 {
        let mut line = "Blobs absents      ".to_owned();
        line.append(text::decimal(it.missing).as_str());
        text::say(&mut out, line);
    }
    {
        let mut line = "Durée              ".to_owned();
        line.append(elapsed);
        line.append("s");
        text::say(&mut out, line);
    }
    if it.outgoing == 0 && it.scanned > 0 {
        text::say(&mut out, "".to_owned());
    }
    if it.outgoing == 0 && it.scanned > 0 {
        text::say(&mut out, "Aucun message envoyé reconnu : le classement n'a qu'un signal sur deux. Vérifier que les dossiers d'envoi des comptes sont bien synchronisés.".to_owned());
    }
    out
}

/// Somebody of the address book.
#[derive(Debug)]
pub struct Contact {
    pub score: i64,
    pub seen_to: u64,
    pub seen_from: u64,
    pub label: String,
}

/// The line of somebody of the address book: the score that the order rests on is shown.
pub open spec fn contact_text(it: Contact) -> Seq<char> {
    "  "@ + text::padded_left(text::signed_dec(it.score as int), ' ', 5) + "  "@ + text::padded_left(
        text::dec(it.seen_to as nat),
        ' ',
        4,
    ) + "↑ "@ + text::padded_left(text::dec(it.seen_from as nat), ' ', 4) + "↓  "@ + it.label@
}

/// The line of somebody of the address book.
pub fn contact(it: &Contact) -> (r: String)
    ensures
        r@ == contact_text(*it),
{
    let mut out = "  ".to_owned();
    out.append(text::pad_left(text::decimal_signed(it.score).as_str(), ' ', 5).as_str());
    out.append("  ");
    out.append(text::pad_left(text::decimal(it.seen_to).as_str(), ' ', 4).as_str());
    out.append("↑ ");
    out.append(text::pad_left(text::decimal(it.seen_from).as_str(), ' ', 4).as_str());
    out.append("↓  ");
    out.append(it.label.as_str());
    out
}

/// The lines of people of the address book.
pub open spec fn contact_lines(found: Seq<Contact>) -> Seq<Seq<char>> {
    Seq::new(found.len(), |i: int| contact_text(found[i]))
}

fn say_contacts(out: &mut Vec<String>, found: &Vec<Contact>)
    ensures
        text::texts(final(out)@) == text::texts(old(out)@) + contact_lines(found@),
{
    let ghost before = text::texts(out@);
    let mut i: usize = 0;
    assert(text::texts(out@) == before + contact_lines(found@).take(0));
    while i < found.len()
        invariant
            i <= found.len(),
            text::texts(out@) == before + contact_lines(found@).take(i as int),
        decreases found.len() - i,
    {
        text::say(out, contact(&found[i]));
        i = i + 1;
        assert(contact_lines(found@).take(i as int) == contact_lines(found@).take(i - 1).push(
            contact_text(found@[i - 1]),
        ));
    }
    assert(contact_lines(found@).take(found.len() as int) == contact_lines(found@));
}

/// What is said of a completion.
pub fn complete(found: &Vec<Contact>, elapsed: &str) -> (r: Vec<String>)
    ensures
        text::texts(r@) == seq![
            text::dec(found@.len()) + " propositions en "@ + elapsed@ + "ms"@,
            ""@,
        ] + contact_lines(found@),
{
    let mut first = text::decimal_usize(found.len());
    first.append(" propositions en ");
    first.append(elapsed);
    first.append("ms");
    let mut out: Vec<String> = Vec::new();
    out.push(first);
    out.push("".to_owned());
    assert(text::texts(out@) == seq![
        text::dec(found@.len()) + " propositions en "@ + elapsed@ + "ms"@,
        ""@,
    ]);
    say_contacts(&mut out, found);
    out
}

/// What is said of the address book.
pub fn contacts_stats(count: u64, top: &Vec<Contact>) -> (r: Vec<String>)
    ensures
        text::texts(r@) == if count == 0 {
            seq![
                "Adresses connues "@ + text::dec(0),
                "Carnet vide — `mail contacts rebuild` pour le construire depuis le corpus."@,
            ]
        } else {
            seq![
                "Adresses connues "@ + text::dec(count as nat),
                ""@,
                "Les mieux classées :"@,
            ] + contact_lines(top@)
        },
{
    let mut first = "Adresses connues ".to_owned();
    first.append(text::decimal(count).as_str());
    let mut out: Vec<String> = Vec::new();
    out.push(first);
    if count == 0 {
        out.push(
            "Carnet vide — `mail contacts rebuild` pour le construire depuis le corpus.".to_owned(),
        );
        assert(text::texts(out@) == seq![
            "Adresses connues "@ + text::dec(0),
            "Carnet vide — `mail contacts rebuild` pour le construire depuis le corpus."@,
        ]);
        return out;
    }
    out.push("".to_owned());
    out.push("Les mieux classées :".to_owned());
    assert(text::texts(out@) == seq![
        "Adresses connues "@ + text::dec(count as nat),
        ""@,
        "Les mieux classées :"@,
    ]);
    say_contacts(&mut out, top);
    out
}

/// What an import came to.
#[derive(Debug)]
pub struct ImportStats {
    pub folders: u64,
    pub feed_folders_skipped: u64,
    pub orphan_folders_skipped: u64,
    pub messages_read: u64,
    pub blobs_created: u64,
    pub duplicates: u64,
    pub refs_created: u64,
    pub refs_existing: u64,
    pub expunged: u64,
    pub degraded: u64,
    pub undated: u64,
    pub unreadable_files: u64,
    pub aborted_files: u64,
}

/// Whether an import has something to report.
pub open spec fn has_anomalies(it: ImportStats) -> bool {
    it.expunged > 0 || it.degraded > 0 || it.undated > 0 || it.unreadable_files > 0
        || it.aborted_files > 0
}

fn anomalies(it: &ImportStats) -> (r: bool)
    ensures
        r == has_anomalies(*it),
{
    it.expunged > 0 || it.degraded > 0 || it.undated > 0 || it.unreadable_files > 0
        || it.aborted_files > 0
}

/// What is said before an import.
pub open spec fn import_header_text(profile: Seq<char>, root: Seq<char>, dry_run: bool) -> Seq<Seq<char>> {
    let s0 = Seq::<Seq<char>>::empty();
    let s1 = s0.push("Profil  "@ + profile);
    let s2 = s1.push("Store   "@ + root);
    let s3 = if dry_run {
        s2.push("Mode    simulation — rien ne sera écrit"@)
    } else {
        s2
    };
    let s4 = s3.push(""@);
    s4
}

/// What is said before an import.
pub fn import_header(profile: &str, root: &str, dry_run: bool) -> (r: Vec<String>)
    ensures
        text::texts(r@) == import_header_text(profile@, root@, dry_run),
{
    let mut out: Vec<String> = Vec::new();
    assert(text::texts(out@) == Seq::<Seq<char>>::empty());
    {
        let mut line = "Profil  ".to_owned();
        line.append(profile);
        text::say(&mut out, line);
    }
    {
        let mut line = "Store   ".to_owned();
        line.append(root);
        text::say(&mut out, line);
    }
    if dry_run {
        text::say(&mut out, "Mode    simulation — rien ne sera écrit".to_owned());
    }
    text::say(&mut out, "".to_owned());
    out
}

/// What is said of an import: whatever was left out is said, with the way to have it.
pub open spec fn import_text(elapsed: Seq<char>, it: ImportStats, share: Seq<char>, raw: Seq<char>, stored: Seq<char>, saved: Seq<char>) -> Seq<Seq<char>> {
    let s0 = Seq::<Seq<char>>::empty();
    let s1 = s0.push("Durée              "@ + elapsed);
    let s2 = s1.push("Dossiers           "@ + text::dec(it.folders as nat));
    let s3 = if it.feed_folders_skipped > 0 {
        s2.push("Flux RSS écartés   "@ + text::dec(it.feed_folders_skipped as nat) + " dossier(s) — --include-feeds pour les importer"@)
    } else {
        s2
    };
    let s4 = if it.orphan_folders_skipped > 0 {
        s3.push("Orphelins écartés  "@ + text::dec(it.orphan_folders_skipped as nat) + " dossier(s) de comptes absents de prefs.js — \n             --include-orphans pour les importer"@)
    } else {
        s3
    };
    let s5 = s4.push("Messages lus       "@ + text::dec(it.messages_read as nat));
    let s6 = s5.push("Contenus stockés   "@ + text::dec(it.blobs_created as nat));
    let s7 = s6.push("Doublons           "@ + text::dec(it.duplicates as nat) + " — "@ + share + " % des messages"@);
    let s8 = s7.push("Références créées  "@ + text::dec(it.refs_created as nat));
    let s9 = if it.refs_existing > 0 {
        s8.push("Réf. déjà là       "@ + text::dec(it.refs_existing as nat))
    } else {
        s8
    };
    let s10 = s9.push(""@);
    let s11 = s10.push("Octets RFC 5322    "@ + raw);
    let s12 = s11.push("Écrits sur disque  "@ + stored);
    let s13 = s12.push("Évités par dédup   "@ + saved);
    let s14 = if has_anomalies(it) {
        s13.push("\nÀ signaler :"@)
    } else {
        s13
    };
    let s15 = if it.expunged > 0 {
        s14.push("  "@ + text::dec(it.expunged as nat) + " supprimés non compactés, ignorés"@)
    } else {
        s14
    };
    let s16 = if it.degraded > 0 {
        s15.push("  "@ + text::dec(it.degraded as nat) + " en-têtes illisibles — messages stockés quand même"@)
    } else {
        s15
    };
    let s17 = if it.undated > 0 {
        s16.push("  "@ + text::dec(it.undated as nat) + " sans date exploitable"@)
    } else {
        s16
    };
    let s18 = if it.unreadable_files > 0 {
        s17.push("  "@ + text::dec(it.unreadable_files as nat) + " dossiers illisibles"@)
    } else {
        s17
    };
    let s19 = if it.aborted_files > 0 {
        s18.push("  "@ + text::dec(it.aborted_files as nat) + " dossiers abandonnés en cours de lecture"@)
    } else {
        s18
    };
    s19
}

/// What is said of an import: whatever was left out is said, with the way to have it.
pub fn import(elapsed: &str, it: &ImportStats, share: &str, raw: &str, stored: &str, saved: &str) -> (r: Vec<String>)
    ensures
        text::texts(r@) == import_text(elapsed@, *it, share@, raw@, stored@, saved@),
{
    let mut out: Vec<String> = Vec::new();
    assert(text::texts(out@) == Seq::<Seq<char>>::empty());
    {
        let mut line = "Durée              ".to_owned();
        line.append(elapsed);
        text::say(&mut out, line);
    }
    {
        let mut line = "Dossiers           ".to_owned();
        line.append(text::decimal(it.folders).as_str());
        text::say(&mut out, line);
    }
    if it.feed_folders_skipped > 0 {
        let mut line = "Flux RSS écartés   ".to_owned();
        line.append(text::decimal(it.feed_folders_skipped).as_str());
        line.append(" dossier(s) — --include-feeds pour les importer");
        text::say(&mut out, line);
    }
    if it.orphan_folders_skipped > 0 {
        let mut line = "Orphelins écartés  ".to_owned();
        line.append(text::decimal(it.orphan_folders_skipped).as_str());
        line.append(" dossier(s) de comptes absents de prefs.js — \n             --include-orphans pour les importer");
        text::say(&mut out, line);
    }
    {
        let mut line = "Messages lus       ".to_owned();
        line.append(text::decimal(it.messages_read).as_str());
        text::say(&mut out, line);
    }
    {
        let mut line = "Contenus stockés   ".to_owned();
        line.append(text::decimal(it.blobs_created).as_str());
        text::say(&mut out, line);
    }
    {
        let mut line = "Doublons           ".to_owned();
        line.append(text::decimal(it.duplicates).as_str());
        line.append(" — ");
        line.append(share);
        line.append(" % des messages");
        text::say(&mut out, line);
    }
    {
        let mut line = "Références créées  ".to_owned();
        line.append(text::decimal(it.refs_created).as_str());
        text::say(&mut out, line);
    }
    if it.refs_existing > 0 {
        let mut line = "Réf. déjà là       ".to_owned();
        line.append(text::decimal(it.refs_existing).as_str());
        text::say(&mut out, line);
    }
    text::say(&mut out, "".to_owned());
    {
        let mut line = "Octets RFC 5322    ".to_owned();
        line.append(raw);
        text::say(&mut out, line);
    }
    {
        let mut line = "Écrits sur disque  ".to_owned();
        line.append(stored);
        text::say(&mut out, line);
    }
    {
        let mut line = "Évités par dédup   ".to_owned();
        line.append(saved);
        text::say(&mut out, line);
    }
    if anomalies(it) {
        text::say(&mut out, "\nÀ signaler :".to_owned());
    }
    if it.expunged > 0 {
        let mut line = "  ".to_owned();
        line.append(text::decimal(it.expunged).as_str());
        line.append(" supprimés non compactés, ignorés");
        text::say(&mut out, line);
    }
    if it.degraded > 0 {
        let mut line = "  ".to_owned();
        line.append(text::decimal(it.degraded).as_str());
        line.append(" en-têtes illisibles — messages stockés quand même");
        text::say(&mut out, line);
    }
    if it.undated > 0 {
        let mut line = "  ".to_owned();
        line.append(text::decimal(it.undated).as_str());
        line.append(" sans date exploitable");
        text::say(&mut out, line);
    }
    if it.unreadable_files > 0 {
        let mut line = "  ".to_owned();
        line.append(text::decimal(it.unreadable_files).as_str());
        line.append(" dossiers illisibles");
        text::say(&mut out, line);
    }
    if it.aborted_files > 0 {
        let mut line = "  ".to_owned();
        line.append(text::decimal(it.aborted_files).as_str());
        line.append(" dossiers abandonnés en cours de lecture");
        text::say(&mut out, line);
    }
    out
}

/// A line of what a search of the store found.
#[derive(Debug)]
pub struct Hit {
    pub id: i64,
    /// The score, as it is to be shown.
    pub score: String,
    /// What the store has of the message: the date as it is to be shown, the name and the address
    /// of its sender, its subject.
    pub item: Option<HitItem>,
}

/// A message that was found.
#[derive(Debug)]
pub struct HitItem {
    pub date: String,
    pub from_name: Option<String>,
    pub from: String,
    pub subject: String,
}

/// A text cut or widened to a width.
pub open spec fn fitted(s: Seq<char>, width: nat) -> Seq<char> {
    text::padded_right(
        if s.len() <= width {
            s
        } else {
            s.take(width as int)
        },
        ' ',
        width,
    )
}

/// A text cut or widened to a width.
fn fit(s: &str, width: usize) -> (r: String)
    ensures
        r@ == fitted(s@, width as nat),
{
    let v = text::chars_of(s);
    if v.len() <= width {
        text::pad_right(s, ' ', width)
    } else {
        let cut = text::text_of(&v, 0, width);
        assert(cut@ == s@.take(width as int));
        text::pad_right(cut.as_str(), ' ', width)
    }
}

/// The line of what was found. A message that the store does not have is said to be missing.
pub open spec fn hit_text(it: Hit) -> Seq<char> {
    match it.item {
        Some(item) => "  "@ + text::padded_left(it.score@, ' ', 6) + "  "@ + item.date@ + "  "@
            + fitted(
            match item.from_name {
                Some(name) => name@,
                None => item.from@,
            },
            32,
        ) + "  "@ + item.subject@,
        None => "  ["@ + text::signed_dec(it.id as int)
            + "] introuvable dans l'index — voir `mail doctor`"@,
    }
}

/// The line of what was found.
pub fn hit(it: &Hit) -> (r: String)
    ensures
        r@ == hit_text(*it),
{
    match &it.item {
        Some(item) => {
            let mut out = "  ".to_owned();
            out.append(text::pad_left(it.score.as_str(), ' ', 6).as_str());
            out.append("  ");
            out.append(item.date.as_str());
            out.append("  ");
            let who = match &item.from_name {
                Some(name) => fit(name.as_str(), 32),
                None => fit(item.from.as_str(), 32),
            };
            out.append(who.as_str());
            out.append("  ");
            out.append(item.subject.as_str());
            out
        },
        None => {
            let mut out = "  [".to_owned();
            out.append(text::decimal_signed(it.id).as_str());
            out.append("] introuvable dans l'index — voir `mail doctor`");
            out
        },
    }
}

/// What is said of a search of the store.
pub fn search(query: &str, hits: &Vec<Hit>, elapsed: &str) -> (r: Vec<String>)
    ensures
        text::texts(r@) == if hits@.len() == 0 {
            seq!["aucun résultat pour « "@ + query@ + " »   ("@ + elapsed@ + ")"@]
        } else {
            seq![text::dec(hits@.len()) + " résultats en "@ + elapsed@ + "\n"@] + Seq::new(
                hits@.len(),
                |i: int| hit_text(hits@[i]),
            )
        },
{
    let mut out: Vec<String> = Vec::new();
    if hits.len() == 0 {
        let mut line = "aucun résultat pour « ".to_owned();
        line.append(query);
        line.append(" »   (");
        line.append(elapsed);
        line.append(")");
        out.push(line);
        assert(text::texts(out@) == seq![
            "aucun résultat pour « "@ + query@ + " »   ("@ + elapsed@ + ")"@,
        ]);
        return out;
    }
    let mut first = text::decimal_usize(hits.len());
    first.append(" résultats en ");
    first.append(elapsed);
    first.append("\n");
    let ghost top = seq![first@];
    out.push(first);
    let ghost all = Seq::new(hits@.len(), |i: int| hit_text(hits@[i]));
    let mut i: usize = 0;
    assert(text::texts(out@) == top + all.take(0));
    while i < hits.len()
        invariant
            i <= hits.len(),
            all == Seq::new(hits@.len(), |i: int| hit_text(hits@[i])),
            text::texts(out@) == top + all.take(i as int),
        decreases hits.len() - i,
    {
        text::say(&mut out, hit(&hits[i]));
        i = i + 1;
        assert(all.take(i as int) == all.take(i - 1).push(hit_text(hits@[i - 1])));
    }
    assert(all.take(hits.len() as int) == all);
    out
}

} // verus!
