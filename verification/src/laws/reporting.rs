//! The reports: each count stands behind the words for what it counts, and nothing is left unsaid.
use crate::cli::remote;
use crate::cli::remote::{Follow, JobRequest, Share};
use crate::cli::reports;
use crate::cli::reports::{
    Contact, ContactStats, Hit, ImportStats, IndexStats, StoreStats, ThreadStats,
};
use crate::dto::{Hello, Job, Results, Row, Source};
use crate::laws::sending;
use crate::protocol;
use crate::protocol::Param;
use crate::quote;
use crate::text;
use vstd::prelude::*;
use vstd::string::*;

verus! {

/// Whether a line of a report starts with these words.
pub open spec fn told(lines: Seq<String>, words: Seq<char>) -> bool {
    exists|i: int| 0 <= i < lines.len() && text::starts((#[trigger] lines[i])@, words)
}

proof fn lemma_told(lines: Seq<String>, i: int, words: Seq<char>, rest: Seq<char>)
    requires
        0 <= i < lines.len(),
        lines[i]@ == words + rest,
    ensures
        told(lines, words),
{
    assert((words + rest).take(words.len() as int) == words);
}

proof fn lemma_told_whole(lines: Seq<String>, i: int, words: Seq<char>)
    requires
        0 <= i < lines.len(),
        lines[i]@ == words,
    ensures
        told(lines, words),
{
    assert(words.take(words.len() as int) == words);
}

proof fn lemma_lines(lines: Seq<String>)
    ensures
        text::texts(lines).len() == lines.len(),
        forall|i: int| 0 <= i < lines.len() ==> (#[trigger] lines[i])@ == text::texts(lines)[i],
{
}

proof fn lemma_said(a: Seq<char>, needle: Seq<char>, b: Seq<char>)
    ensures
        text::occurs(needle, a + needle + b),
{
    let all = a + needle + b;
    let at = a.len() as int;
    assert(all.subrange(at, at + needle.len()) == needle);
}

// ---------------------------------------------------------------------------------------------
// The store
// ---------------------------------------------------------------------------------------------

/// The counts of a store are those of the store, here and at a daemon; messages without a thread are
/// told where there are any.
pub proof fn a_store_is_counted(
    root: &str,
    it: &StoreStats,
    share: &str,
    size: &str,
    here: Vec<String>,
    daemon: &str,
    there: Vec<String>,
)
    requires
        call_ensures(reports::stats, (root, it, share, size), here),
        call_ensures(reports::remote_stats, (daemon, it, size), there),
    ensures
        told(here@, "Store              "@ + root@),
        told(here@, "Comptes            "@ + text::dec(it.accounts as nat)),
        told(here@, "Dossiers           "@ + text::dec(it.folders as nat)),
        told(here@, "Contenus distincts "@ + text::dec(it.messages as nat)),
        told(here@, "Références         "@ + text::dec(it.refs as nat)),
        told(here@, "Réf. par message   "@ + share@),
        told(here@, "Octets RFC 5322    "@ + size@),
        it.unthreaded > 0 ==> told(here@, "Sans fil           "@ + text::dec(it.unthreaded as nat)),
        it.unthreaded == 0 <==> here@.len() == 7,
        told(there@, "Démon              "@ + daemon@),
        told(there@, "Comptes            "@ + text::dec(it.accounts as nat)),
        told(there@, "Dossiers           "@ + text::dec(it.folders as nat)),
        told(there@, "Contenus uniques   "@ + text::dec(it.messages as nat)),
        told(there@, "Références         "@ + text::dec(it.refs as nat)),
        told(there@, "Octets RFC 5322    "@ + size@),
        it.unthreaded == 0 <==> there@.len() == 6,
{
    lemma_lines(here@);
    lemma_lines(there@);
    lemma_told_whole(here@, 0, "Store              "@ + root@);
    lemma_told_whole(here@, 1, "Comptes            "@ + text::dec(it.accounts as nat));
    lemma_told_whole(here@, 2, "Dossiers           "@ + text::dec(it.folders as nat));
    lemma_told_whole(here@, 3, "Contenus distincts "@ + text::dec(it.messages as nat));
    lemma_told_whole(here@, 4, "Références         "@ + text::dec(it.refs as nat));
    lemma_told(here@, 5, "Réf. par message   "@ + share@, "  — au-dessus de 1, la dédup a servi"@);
    lemma_told_whole(here@, 6, "Octets RFC 5322    "@ + size@);
    if it.unthreaded > 0 {
        lemma_told(
            here@,
            7,
            "Sans fil           "@ + text::dec(it.unthreaded as nat),
            " — la passe de threading n'est pas passée"@,
        );
    }
    lemma_told_whole(there@, 0, "Démon              "@ + daemon@);
    lemma_told_whole(there@, 1, "Comptes            "@ + text::dec(it.accounts as nat));
    lemma_told_whole(there@, 2, "Dossiers           "@ + text::dec(it.folders as nat));
    lemma_told_whole(there@, 3, "Contenus uniques   "@ + text::dec(it.messages as nat));
    lemma_told_whole(there@, 4, "Références         "@ + text::dec(it.refs as nat));
    lemma_told_whole(there@, 5, "Octets RFC 5322    "@ + size@);
}

/// The counts of an indexing are those of the indexing; what could not be read and what is gone are
/// told where there is any.
pub proof fn an_indexing_is_counted(elapsed: &str, it: &IndexStats, size: &str, lines: Vec<String>)
    requires
        call_ensures(reports::index, (elapsed, it, size), lines),
    ensures
        told(lines@, "Durée              "@ + elapsed@),
        told(lines@, "Messages indexés   "@ + text::dec(it.indexed as nat)),
        told(lines@, "Texte indexé       "@ + size@),
        it.degraded > 0 ==> told(lines@, "MIME illisible     "@ + text::dec(it.degraded as nat)),
        it.missing_blobs > 0 ==> told(
            lines@,
            "Blobs absents      "@ + text::dec(it.missing_blobs as nat),
        ),
        lines@.len() == 3 <==> it.degraded == 0 && it.missing_blobs == 0,
{
    lemma_lines(lines@);
    lemma_told_whole(lines@, 0, "Durée              "@ + elapsed@);
    lemma_told_whole(lines@, 1, "Messages indexés   "@ + text::dec(it.indexed as nat));
    lemma_told_whole(lines@, 2, "Texte indexé       "@ + size@);
    if it.degraded > 0 {
        lemma_told(
            lines@,
            3,
            "MIME illisible     "@ + text::dec(it.degraded as nat),
            " — indexés sur leurs métadonnées"@,
        );
    }
    if it.missing_blobs > 0 {
        lemma_told(
            lines@,
            lines@.len() - 1,
            "Blobs absents      "@ + text::dec(it.missing_blobs as nat),
            " — voir `mail doctor`"@,
        );
    }
}

/// The counts of a threading are those of the threading, each share behind the count it is of.
pub proof fn a_threading_is_counted(
    elapsed: &str,
    it: &ThreadStats,
    named: &str,
    linked: &str,
    alone: &str,
    lines: Vec<String>,
)
    requires
        call_ensures(reports::thread, (elapsed, it, named, linked, alone), lines),
    ensures
        told(lines@, "Fils               "@ + text::dec(it.threads as nat)),
        told(lines@, "Messages rattachés "@ + text::dec(it.messages as nat)),
        told(lines@, "Liens References   "@ + text::dec(it.links_by_references as nat)),
        told(lines@, "Liens par sujet    "@ + text::dec(it.links_by_subject as nat)),
        told(
            lines@,
            "Avec Message-ID    "@ + text::dec(it.with_message_id as nat) + " ("@ + named@,
        ),
        told(
            lines@,
            "Avec References    "@ + text::dec(it.with_references as nat) + " ("@ + linked@,
        ),
        told(lines@, "Réf. non résolues  "@ + text::dec(it.references_unresolved as nat)),
        told(lines@, "Fils d'un message  "@ + text::dec(it.singletons as nat) + " ("@ + alone@),
        it.subject_groups_rejected > 0 ==> told(
            lines@,
            "Sujets écartés     "@ + text::dec(it.subject_groups_rejected as nat),
        ),
        it.missing_blobs > 0 ==> told(
            lines@,
            "Blobs absents      "@ + text::dec(it.missing_blobs as nat),
        ),
{
    lemma_lines(lines@);
    lemma_told_whole(lines@, 1, "Fils               "@ + text::dec(it.threads as nat));
    lemma_told_whole(lines@, 2, "Messages rattachés "@ + text::dec(it.messages as nat));
    lemma_told_whole(lines@, 3, "Liens References   "@ + text::dec(it.links_by_references as nat));
    lemma_told_whole(lines@, 4, "Liens par sujet    "@ + text::dec(it.links_by_subject as nat));
    lemma_told(
        lines@,
        5,
        "Avec Message-ID    "@ + text::dec(it.with_message_id as nat) + " ("@ + named@,
        " %)"@,
    );
    lemma_told(
        lines@,
        6,
        "Avec References    "@ + text::dec(it.with_references as nat) + " ("@ + linked@,
        " %)"@,
    );
    lemma_told(
        lines@,
        7,
        "Réf. non résolues  "@ + text::dec(it.references_unresolved as nat),
        " — le message parent n'est pas dans le corpus"@,
    );
    lemma_told(
        lines@,
        8,
        "Fils d'un message  "@ + text::dec(it.singletons as nat) + " ("@ + alone@,
        " %)"@,
    );
    if it.subject_groups_rejected > 0 {
        lemma_told(
            lines@,
            9,
            "Sujets écartés     "@ + text::dec(it.subject_groups_rejected as nat),
            " groupes trop gros pour être une conversation"@,
        );
    }
    if it.missing_blobs > 0 {
        lemma_told(
            lines@,
            lines@.len() - 1,
            "Blobs absents      "@ + text::dec(it.missing_blobs as nat),
            " — voir `mail doctor`"@,
        );
    }
}

/// Whether lines begin with others.
pub open spec fn extends(all: Seq<Seq<char>>, first: Seq<Seq<char>>) -> bool {
    first.len() <= all.len() && forall|i: int| 0 <= i < first.len() ==> #[trigger] all[i] == first[i]
}

/// A line that is said where there is something to say.
pub open spec fn maybe(lines: Seq<Seq<char>>, there: bool, line: Seq<char>) -> Seq<Seq<char>> {
    if there {
        lines.push(line)
    } else {
        lines
    }
}

proof fn lemma_maybe(all: Seq<Seq<char>>, lines: Seq<Seq<char>>, there: bool, line: Seq<char>)
    requires
        extends(lines, all),
    ensures
        extends(maybe(lines, there, line), all),
        there ==> maybe(lines, there, line)[lines.len() as int] == line,
        maybe(lines, there, line).len() == lines.len() + (if there {
            1int
        } else {
            0int
        }),
{
}

#[verifier::spinoff_prover]
#[verifier::rlimit(60)]
proof fn lemma_import(
    elapsed: Seq<char>,
    it: ImportStats,
    share: Seq<char>,
    raw: Seq<char>,
    stored: Seq<char>,
    saved: Seq<char>,
)
    ensures
        ({
            let all = reports::import_text(elapsed, it, share, raw, stored, saved);
            let a: int = if it.feed_folders_skipped > 0 {
                1
            } else {
                0
            };
            let b: int = a + if it.orphan_folders_skipped > 0 {
                1int
            } else {
                0int
            };
            let c: int = b + if it.refs_existing > 0 {
                1int
            } else {
                0int
            };
            &&& all.len() >= 10 + c
            &&& all[1] == "Dossiers           "@ + text::dec(it.folders as nat)
            &&& it.feed_folders_skipped > 0 ==> all[2] == "Flux RSS écartés   "@ + text::dec(
                it.feed_folders_skipped as nat,
            ) + " dossier(s) — --include-feeds pour les importer"@
            &&& it.orphan_folders_skipped > 0 ==> all[2 + a] == "Orphelins écartés  "@ + text::dec(
                it.orphan_folders_skipped as nat,
            )
                + " dossier(s) de comptes absents de prefs.js — \n             --include-orphans pour les importer"@
            &&& all[2 + b] == "Messages lus       "@ + text::dec(it.messages_read as nat)
            &&& all[3 + b] == "Contenus stockés   "@ + text::dec(it.blobs_created as nat)
            &&& all[4 + b] == "Doublons           "@ + text::dec(it.duplicates as nat) + " — "@
                + share + " % des messages"@
            &&& all[5 + b] == "Références créées  "@ + text::dec(it.refs_created as nat)
            &&& all[7 + c] == "Octets RFC 5322    "@ + raw
            &&& all[8 + c] == "Écrits sur disque  "@ + stored
            &&& all[9 + c] == "Évités par dédup   "@ + saved
            &&& it.aborted_files > 0 ==> all[all.len() - 1] == "  "@ + text::dec(
                it.aborted_files as nat,
            ) + " dossiers abandonnés en cours de lecture"@
        }),
{
    let all = reports::import_text(elapsed, it, share, raw, stored, saved);
    let s2 = Seq::<Seq<char>>::empty().push("Durée              "@ + elapsed).push(
        "Dossiers           "@ + text::dec(it.folders as nat),
    );
    let feeds = "Flux RSS écartés   "@ + text::dec(it.feed_folders_skipped as nat)
        + " dossier(s) — --include-feeds pour les importer"@;
    let s3 = maybe(s2, it.feed_folders_skipped > 0, feeds);
    let orphans = "Orphelins écartés  "@ + text::dec(it.orphan_folders_skipped as nat)
        + " dossier(s) de comptes absents de prefs.js — \n             --include-orphans pour les importer"@;
    let s4 = maybe(s3, it.orphan_folders_skipped > 0, orphans);
    let s8 = s4.push("Messages lus       "@ + text::dec(it.messages_read as nat)).push(
        "Contenus stockés   "@ + text::dec(it.blobs_created as nat),
    ).push(
        "Doublons           "@ + text::dec(it.duplicates as nat) + " — "@ + share
            + " % des messages"@,
    ).push("Références créées  "@ + text::dec(it.refs_created as nat));
    let known = "Réf. déjà là       "@ + text::dec(it.refs_existing as nat);
    let s9 = maybe(s8, it.refs_existing > 0, known);
    let s13 = s9.push(""@).push("Octets RFC 5322    "@ + raw).push(
        "Écrits sur disque  "@ + stored,
    ).push("Évités par dédup   "@ + saved);
    let s14 = maybe(s13, reports::has_anomalies(it), "\nÀ signaler :"@);
    let s15 = maybe(
        s14,
        it.expunged > 0,
        "  "@ + text::dec(it.expunged as nat) + " supprimés non compactés, ignorés"@,
    );
    let s16 = maybe(
        s15,
        it.degraded > 0,
        "  "@ + text::dec(it.degraded as nat)
            + " en-têtes illisibles — messages stockés quand même"@,
    );
    let s17 = maybe(
        s16,
        it.undated > 0,
        "  "@ + text::dec(it.undated as nat) + " sans date exploitable"@,
    );
    let s18 = maybe(
        s17,
        it.unreadable_files > 0,
        "  "@ + text::dec(it.unreadable_files as nat) + " dossiers illisibles"@,
    );
    let s19 = maybe(
        s18,
        it.aborted_files > 0,
        "  "@ + text::dec(it.aborted_files as nat) + " dossiers abandonnés en cours de lecture"@,
    );
    assert(all == s19);
    lemma_maybe(s2, s2, it.feed_folders_skipped > 0, feeds);
    lemma_maybe(s3, s3, it.orphan_folders_skipped > 0, orphans);
    lemma_maybe(s8, s8, it.refs_existing > 0, known);
    assert(extends(s13, s13));
    lemma_maybe(s13, s13, reports::has_anomalies(it), "\nÀ signaler :"@);
    lemma_maybe(
        s13,
        s14,
        it.expunged > 0,
        "  "@ + text::dec(it.expunged as nat) + " supprimés non compactés, ignorés"@,
    );
    lemma_maybe(
        s13,
        s15,
        it.degraded > 0,
        "  "@ + text::dec(it.degraded as nat)
            + " en-têtes illisibles — messages stockés quand même"@,
    );
    lemma_maybe(
        s13,
        s16,
        it.undated > 0,
        "  "@ + text::dec(it.undated as nat) + " sans date exploitable"@,
    );
    lemma_maybe(
        s13,
        s17,
        it.unreadable_files > 0,
        "  "@ + text::dec(it.unreadable_files as nat) + " dossiers illisibles"@,
    );
    lemma_maybe(
        s13,
        s18,
        it.aborted_files > 0,
        "  "@ + text::dec(it.aborted_files as nat) + " dossiers abandonnés en cours de lecture"@,
    );
}

/// The counts of an import are those of the import, and whatever was left out or could not be read
/// is told; a trial says that it is one.
pub proof fn an_import_is_counted(
    elapsed: &str,
    it: &ImportStats,
    share: &str,
    raw: &str,
    stored: &str,
    saved: &str,
    lines: Vec<String>,
    profile: &str,
    root: &str,
    dry: Vec<String>,
    wet: Vec<String>,
)
    requires
        call_ensures(reports::import, (elapsed, it, share, raw, stored, saved), lines),
        call_ensures(reports::import_header, (profile, root, true), dry),
        call_ensures(reports::import_header, (profile, root, false), wet),
    ensures
        told(lines@, "Dossiers           "@ + text::dec(it.folders as nat)),
        it.feed_folders_skipped > 0 ==> told(
            lines@,
            "Flux RSS écartés   "@ + text::dec(it.feed_folders_skipped as nat),
        ),
        it.orphan_folders_skipped > 0 ==> told(
            lines@,
            "Orphelins écartés  "@ + text::dec(it.orphan_folders_skipped as nat),
        ),
        told(lines@, "Messages lus       "@ + text::dec(it.messages_read as nat)),
        told(lines@, "Contenus stockés   "@ + text::dec(it.blobs_created as nat)),
        told(lines@, "Doublons           "@ + text::dec(it.duplicates as nat)),
        told(lines@, "Références créées  "@ + text::dec(it.refs_created as nat)),
        told(lines@, "Octets RFC 5322    "@ + raw@),
        told(lines@, "Écrits sur disque  "@ + stored@),
        told(lines@, "Évités par dédup   "@ + saved@),
        it.aborted_files > 0 ==> told(
            lines@,
            "  "@ + text::dec(it.aborted_files as nat) + " dossiers abandonnés"@,
        ),
        told(dry@, "Profil  "@ + profile@) && told(dry@, "Store   "@ + root@),
        told(wet@, "Profil  "@ + profile@) && told(wet@, "Store   "@ + root@),
        dry@.len() == wet@.len() + 1,
{
    lemma_lines(lines@);
    lemma_lines(dry@);
    lemma_lines(wet@);
    let a: int = if it.feed_folders_skipped > 0 {
        1
    } else {
        0
    };
    let b: int = a + if it.orphan_folders_skipped > 0 {
        1int
    } else {
        0int
    };
    let c: int = b + if it.refs_existing > 0 {
        1int
    } else {
        0int
    };
    lemma_import(elapsed@, *it, share@, raw@, stored@, saved@);
    lemma_told_whole(lines@, 1, "Dossiers           "@ + text::dec(it.folders as nat));
    if it.feed_folders_skipped > 0 {
        lemma_told(
            lines@,
            2,
            "Flux RSS écartés   "@ + text::dec(it.feed_folders_skipped as nat),
            " dossier(s) — --include-feeds pour les importer"@,
        );
    }
    if it.orphan_folders_skipped > 0 {
        lemma_told(
            lines@,
            2 + a,
            "Orphelins écartés  "@ + text::dec(it.orphan_folders_skipped as nat),
            " dossier(s) de comptes absents de prefs.js — \n             --include-orphans pour les importer"@,
        );
    }
    lemma_told_whole(lines@, 2 + b, "Messages lus       "@ + text::dec(it.messages_read as nat));
    lemma_told_whole(lines@, 3 + b, "Contenus stockés   "@ + text::dec(it.blobs_created as nat));
    let line = "Doublons           "@ + text::dec(it.duplicates as nat);
    assert(lines@[4 + b]@ == line + (" — "@ + share@ + " % des messages"@));
    lemma_told(lines@, 4 + b, line, " — "@ + share@ + " % des messages"@);
    lemma_told_whole(lines@, 5 + b, "Références créées  "@ + text::dec(it.refs_created as nat));
    lemma_told_whole(lines@, 7 + c, "Octets RFC 5322    "@ + raw@);
    lemma_told_whole(lines@, 8 + c, "Écrits sur disque  "@ + stored@);
    lemma_told_whole(lines@, 9 + c, "Évités par dédup   "@ + saved@);
    if it.aborted_files > 0 {
        reveal_strlit(" dossiers abandonnés en cours de lecture");
        reveal_strlit(" dossiers abandonnés");
        let lead = "  "@ + text::dec(it.aborted_files as nat);
        let short = " dossiers abandonnés"@;
        let long = " dossiers abandonnés en cours de lecture"@;
        assert(long.take(short.len() as int) =~= short);
        assert(long == short + long.skip(short.len() as int));
        assert(lead + long == (lead + short) + long.skip(short.len() as int));
        lemma_told(lines@, lines@.len() - 1, lead + short, long.skip(short.len() as int));
    }
    lemma_told_whole(dry@, 0, "Profil  "@ + profile@);
    lemma_told_whole(dry@, 1, "Store   "@ + root@);
    lemma_told_whole(wet@, 0, "Profil  "@ + profile@);
    lemma_told_whole(wet@, 1, "Store   "@ + root@);
}

// ---------------------------------------------------------------------------------------------
// The address book and the search
// ---------------------------------------------------------------------------------------------

/// The counts of the address book are its own, and everybody who is proposed has a line, in order,
/// with how often they were written to and how often they wrote.
pub proof fn the_address_book_is_counted(
    it: &ContactStats,
    elapsed: &str,
    built: Vec<String>,
    found: &Vec<Contact>,
    shown: Vec<String>,
    k: int,
)
    requires
        call_ensures(reports::contacts, (it, elapsed), built),
        call_ensures(reports::complete, (found, elapsed), shown),
        0 <= k < found@.len(),
    ensures
        told(built@, "Messages parcourus "@ + text::dec(it.scanned as nat)),
        told(built@, "Adresses retenues  "@ + text::dec(it.addresses as nat)),
        told(built@, "Messages envoyés   "@ + text::dec(it.outgoing as nat)),
        it.missing > 0 ==> told(built@, "Blobs absents      "@ + text::dec(it.missing as nat)),
        shown@.len() == found@.len() + 2,
        text::starts(shown@[0]@, text::dec(found@.len())),
        text::occurs(found@[k].label@, shown@[k + 2]@),
        text::occurs(text::dec(found@[k].seen_to as nat) + "↑ "@, shown@[k + 2]@),
        text::occurs(text::dec(found@[k].seen_from as nat) + "↓  "@, shown@[k + 2]@),
{
    lemma_lines(built@);
    lemma_lines(shown@);
    lemma_told_whole(built@, 0, "Messages parcourus "@ + text::dec(it.scanned as nat));
    lemma_told_whole(built@, 1, "Adresses retenues  "@ + text::dec(it.addresses as nat));
    lemma_told_whole(built@, 2, "Messages envoyés   "@ + text::dec(it.outgoing as nat));
    if it.missing > 0 {
        lemma_told_whole(built@, 3, "Blobs absents      "@ + text::dec(it.missing as nat));
    }
    let n = text::dec(found@.len());
    assert(shown@[0]@.take(n.len() as int) == n);
    let c = found@[k];
    let line = reports::contact_text(c);
    assert(shown@[k + 2]@ == line);
    let score = text::padded_left(text::signed_dec(c.score as int), ' ', 5);
    let to = text::dec(c.seen_to as nat);
    let wide_to = text::padded_left(to, ' ', 4);
    let from = text::dec(c.seen_from as nat);
    let wide_from = text::padded_left(from, ' ', 4);
    let lead = "  "@ + score + "  "@;
    let at = (lead.len() + wide_to.len() - to.len()) as int;
    let up = to + "↑ "@;
    assert(wide_to.skip(wide_to.len() - to.len()) == to);
    assert(line.subrange(at, at + up.len()) == up);
    let then = lead + wide_to + "↑ "@;
    let bt = (then.len() + wide_from.len() - from.len()) as int;
    let down = from + "↓  "@;
    assert(wide_from.skip(wide_from.len() - from.len()) == from);
    assert(line.subrange(bt, bt + down.len()) == down);
    lemma_said(then + wide_from + "↓  "@, c.label@, Seq::empty());
    assert(then + wide_from + "↓  "@ + c.label@ + Seq::<char>::empty() == line);
}

/// Every message that was found has a line, in the order in which it was found, with its subject; and
/// one that the store no longer has is told by its number.
pub proof fn everything_that_was_found_is_listed(
    query: &str,
    hits: &Vec<Hit>,
    elapsed: &str,
    lines: Vec<String>,
    k: int,
)
    requires
        call_ensures(reports::search, (query, hits, elapsed), lines),
    ensures
        hits@.len() == 0 ==> lines@.len() == 1 && text::occurs(query@, lines@[0]@),
        hits@.len() > 0 ==> lines@.len() == hits@.len() + 1 && text::starts(
            lines@[0]@,
            text::dec(hits@.len()),
        ),
        0 <= k < hits@.len() ==> {
            let line = lines@[k + 1]@;
            &&& hits@[k].item matches Some(item) ==> text::occurs(item.subject@, line)
                && text::occurs(item.date@, line) && (item.from_name is None && item.from@.len()
                <= 32 ==> text::occurs(item.from@, line))
            &&& hits@[k].item is None ==> text::occurs(
                text::signed_dec(hits@[k].id as int),
                line,
            )
        },
{
    lemma_lines(lines@);
    lemma_said("aucun résultat pour « "@, query@, " »   ("@ + elapsed@ + ")"@);
    assert("aucun résultat pour « "@ + query@ + " »   ("@ + elapsed@ + ")"@
        == "aucun résultat pour « "@ + query@ + (" »   ("@ + elapsed@ + ")"@));
    let n = text::dec(hits@.len());
    if hits@.len() > 0 {
        assert(lines@[0]@.take(n.len() as int) == n);
    }
    if 0 <= k < hits@.len() {
        let line = reports::hit_text(hits@[k]);
        assert(lines@[k + 1]@ == line);
        match hits@[k].item {
            Some(item) => {
                let who = reports::fitted(
                    match item.from_name {
                        Some(name) => name@,
                        None => item.from@,
                    },
                    32,
                );
                let lead = "  "@ + text::padded_left(hits@[k].score@, ' ', 6) + "  "@;
                assert(line == lead + item.date@ + ("  "@ + who + "  "@ + item.subject@));
                lemma_said(lead, item.date@, "  "@ + who + "  "@ + item.subject@);
                let before = lead + item.date@ + "  "@;
                lemma_said(before + who + "  "@, item.subject@, Seq::empty());
                assert(before + who + "  "@ + item.subject@ + Seq::<char>::empty() == line);
                if item.from_name is None && item.from@.len() <= 32 {
                    let at = before.len() as int;
                    assert(line.subrange(at, at + item.from@.len()) == item.from@);
                }
            },
            None => {
                lemma_said(
                    "  ["@,
                    text::signed_dec(hits@[k].id as int),
                    "] introuvable dans l'index — voir `mail doctor`"@,
                );
            },
        }
    }
}

// ---------------------------------------------------------------------------------------------
// A daemon
// ---------------------------------------------------------------------------------------------

/// The state of a daemon is what it says of itself: its version, its messages, its revision, every
/// profile that it may import by its rank and its path, and its last task.
pub proof fn a_daemon_is_told_as_it_is(
    daemon: &str,
    hello: &Hello,
    sources: &Vec<Source>,
    jobs: &Vec<Job>,
    lines: Vec<String>,
    k: int,
)
    requires
        call_ensures(remote::status, (daemon, hello, sources, jobs), lines),
    ensures
        told(lines@, "Démon       "@ + daemon@),
        told(lines@, "Version     "@ + hello.version@),
        told(lines@, "Messages    "@ + text::dec(hello.messages as nat)),
        told(lines@, "Révision    "@ + hello.revision@),
        hello.search_available ==> told(lines@, "Recherche   disponible"@),
        0 <= k < sources@.len() ==> told(
            lines@,
            "            ["@ + text::dec(sources@[k].id as nat) + "] "@ + sources@[k].path@,
        ),
        jobs@.len() > 0 ==> lines@[lines@.len() - 1]@ == "Dernière tâche  #"@ + text::signed_dec(
            jobs@[0].id as int,
        ) + " "@ + jobs@[0].kind@ + " — "@ + jobs@[0].state@,
{
    lemma_lines(lines@);
    let all = text::texts(lines@);
    lemma_told_whole(lines@, 0, "Démon       "@ + daemon@);
    let version = "Version     "@ + hello.version@;
    let rest = " (protocole "@ + text::dec(hello.protocol as nat) + ")"@;
    assert(lines@[1]@ == version + rest);
    lemma_told(lines@, 1, version, rest);
    lemma_told_whole(lines@, 2, "Messages    "@ + text::dec(hello.messages as nat));
    if hello.search_available {
        reveal_strlit("Recherche   ");
        reveal_strlit("disponible");
        reveal_strlit("Recherche   disponible");
        assert("Recherche   "@ + "disponible"@ =~= "Recherche   disponible"@);
        lemma_told_whole(lines@, 3, "Recherche   disponible"@);
    }
    lemma_told_whole(lines@, 4, "Révision    "@ + hello.revision@);
    if 0 <= k < sources@.len() {
        let shown = remote::sources_text(sources@);
        assert(shown[k + 1] == remote::source_line(sources@[k]));
        assert(all[6 + k] == shown[k + 1]);
        lemma_told_whole(lines@, 6 + k, remote::source_line(sources@[k]));
    }
    if jobs@.len() > 0 {
        let last = remote::last_job_text(jobs@);
        assert(all[all.len() - 1] == last[0]);
    }
}

/// A task is asked for with what was wanted: its kind, its account, its profile, and whether it
/// writes anything.
pub proof fn a_task_is_asked_for_as_it_was_wanted<'a>(
    it: &JobRequest<'a>,
    params: Vec<(&'static str, Param<'a>)>,
)
    requires
        call_ensures(remote::job_params, (it,), params),
    ensures
        exists|i: int|
            0 <= i < params@.len() && (#[trigger] params@[i]).0@ == "kind"@ && sending::words_in(
                params@[i].1,
            ) == Some(it.kind@),
        exists|i: int|
            0 <= i < params@.len() && (#[trigger] params@[i]).0@ == "dry_run"@ && params@[i].1
                == Param::Flag(it.dry_run),
        exists|i: int|
            0 <= i < params@.len() && (#[trigger] params@[i]).0@ == "include_feeds"@ && params@[i].1
                == Param::Flag(it.include_feeds),
        exists|i: int|
            0 <= i < params@.len() && (#[trigger] params@[i]).0@ == "include_orphans"@
                && params@[i].1 == Param::Flag(it.include_orphans),
        it.source matches Some(source) ==> exists|i: int|
            0 <= i < params@.len() && (#[trigger] params@[i]).0@ == "source"@ && sending::number_in(
                params@[i].1,
            ) == Some(source as int),
        it.account matches Some(account) ==> exists|i: int|
            0 <= i < params@.len() && (#[trigger] params@[i]).0@ == "account"@ && sending::number_in(
                params@[i].1,
            ) == Some(account as int),
{
    let values = protocol::values_of(params@);
    assert(values == remote::job_params_of(*it));
    assert(values[0] == (params@[0].0@, protocol::value_of(params@[0].1)));
    assert(values[1] == (params@[1].0@, protocol::value_of(params@[1].1)));
    assert(values[2] == (params@[2].0@, protocol::value_of(params@[2].1)));
    assert(values[3] == (params@[3].0@, protocol::value_of(params@[3].1)));
    if it.source is Some {
        assert(values[4] == (params@[4].0@, protocol::value_of(params@[4].1)));
    }
    if it.account is Some {
        let last = values.len() - 1;
        assert(values[last] == (params@[last].0@, protocol::value_of(params@[last].1)));
    }
}

/// A task is followed while it is neither done, failed nor cancelled, and fails the command where it
/// failed; its last word is told.
pub proof fn a_task_is_followed_to_its_end(
    job: &Job,
    share: &Option<Share>,
    size: &str,
    elapsed: &str,
    step: Follow,
)
    requires
        call_ensures(remote::follow, (job, share, size, elapsed), step),
    ensures
        step is Over <==> job.state@ == "done"@ || job.state@ == "failed"@ || job.state@
            == "cancelled"@,
        step matches Follow::Over { lines, failed } ==> {
            &&& failed == (job.state@ == "failed"@)
            &&& told(lines@, "État               "@ + job.state@)
            &&& told(lines@, "Durée              "@ + elapsed@)
            &&& job.message matches Some(message) ==> told(
                lines@,
                "Bilan              "@ + message@,
            )
        },
        step matches Follow::Progress(line) ==> if job.kind@ == "import"@ {
            text::occurs(size@, line@)
        } else {
            text::occurs(text::dec(job.done as nat), line@)
        },
{
    match step {
        Follow::Over { lines, failed } => {
            lemma_lines(lines@);
            lemma_told_whole(lines@, 0, "Durée              "@ + elapsed@);
            lemma_told_whole(lines@, 1, "État               "@ + job.state@);
            match job.message {
                Some(message) => {
                    lemma_told_whole(lines@, 2, "Bilan              "@ + message@);
                },
                None => {},
            }
        },
        Follow::Progress(line) => {
            let unit = remote::unit_text(*job, size@);
            let at = line@.len() - unit.len();
            assert(line@.subrange(at, at + unit.len()) == unit);
            if job.kind@ != "import"@ {
                let n = text::dec(job.done as nat);
                assert(line@.subrange(at, at + n.len()) == n);
            }
        },
    }
}

/// The bar of a task is as full as the task is far: a filled mark for each of its parts, blanks for
/// the rest, and its share behind it.
pub proof fn a_bar_is_as_full_as_its_task(job: &Job, share: Share, size: &str, line: String)
    requires
        call_ensures(remote::progress_line, (job, &Some(share), size), line),
        share.filled <= 30,
    ensures
        line@.len() > 31,
        line@[0] == '[' && line@[31] == ']',
        forall|i: int| 1 <= i <= share.filled ==> line@[i] == '#',
        forall|i: int| share.filled < i <= 30 ==> line@[i] == ' ',
        text::occurs(share.percent@, line@),
{
    reveal_strlit("[");
    reveal_strlit("] ");
    let marks = text::repeated('#', share.filled as nat);
    let blanks = text::repeated(' ', (30 - share.filled) as nat);
    let head = "["@ + marks + blanks + "] "@;
    let wide = text::padded_left(share.percent@, ' ', 5);
    let tail = " %  "@ + remote::unit_text(*job, size@);
    assert(line@ == head + wide + tail);
    assert(wide.skip(wide.len() - share.percent@.len()) == share.percent@);
    let at = (head.len() + wide.len() - share.percent@.len()) as int;
    assert(line@.subrange(at, at + share.percent@.len()) == share.percent@);
}

/// A message that a daemon found is shown with its date, who wrote it and its subject, and a search
/// says how many there are, or that there is no index.
pub proof fn what_a_daemon_found_is_shown(
    row: &Row,
    date: &str,
    line: String,
    daemon: &str,
    results: &Results,
    elapsed: &str,
    header: Vec<String>,
    footer: Option<&'static str>,
)
    requires
        call_ensures(remote::found, (row, date), line),
        call_ensures(remote::search_header, (daemon, results, elapsed), header),
        call_ensures(remote::search_footer, (results,), footer),
    ensures
        text::starts(line@, date@),
        text::occurs(row.subject@, line@),
        row.from_name matches Some(name) ==> name@.len() <= 28 ==> text::occurs(name@, line@),
        row.from_name is None ==> row.from@.len() <= 28 ==> text::occurs(row.from@, line@),
        results.search_available ==> header@.len() == 1 && text::starts(
            header@[0]@,
            text::dec(results.count as nat),
        ),
        !results.search_available ==> header@.len() == 2 && text::occurs(daemon@, header@[1]@),
        footer is Some <==> results.search_available && results.truncated,
{
    lemma_lines(header@);
    let who = match row.from_name {
        Some(name) => name@,
        None => row.from@,
    };
    let shown = quote::column(who, 28);
    let lead = date@ + "  "@;
    assert(line@ == lead + shown + "  "@ + row.subject@);
    assert(line@.take(date@.len() as int) == date@);
    lemma_said(lead + shown + "  "@, row.subject@, Seq::empty());
    assert(lead + shown + "  "@ + row.subject@ + Seq::<char>::empty() == line@);
    if who.len() <= 28 {
        let at = lead.len() as int;
        assert(line@.subrange(at, at + who.len()) == who);
    }
    let n = text::dec(results.count as nat);
    if results.search_available {
        assert(header@[0]@.take(n.len() as int) == n);
    } else {
        lemma_said("Lancer `mail index --daemon "@, daemon@, "`."@);
    }
}

/// A token is kept without the blanks around it, and a blank one is refused.
pub proof fn a_token_is_kept_as_it_was_typed(line: &str, kept: Result<String, String>)
    requires
        call_ensures(remote::token, (line,), kept),
    ensures
        kept is Ok <==> text::trimmed(line@).len() > 0,
        kept matches Ok(token) ==> token@ == text::trimmed(line@),
{
}

} // verus!
