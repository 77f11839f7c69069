//! The commands: each is about the account that was named, is carried out where it may be, and says
//! what came of it.
use crate::accounts;
use crate::accounts::{AccountKind, AuthKind, FullAccount, Security, Server};
use crate::cli::account;
use crate::cli::account::{Declaration, Secret, Submission, SubmissionPlan};
use crate::cli::dispatch;
use crate::cli::dispatch::{Command, Way};
use crate::cli::doctor;
use crate::cli::doctor::Checkup;
use crate::cli::send::SendState;
use crate::cli::source;
use crate::cli::source::{Named, Target};
use crate::cli::sync;
use crate::cli::sync::{Tally, Wanted};
use crate::dto::MessageSource;
use crate::laws::queue;
use crate::protocol::Method;
use crate::text;
use vstd::prelude::*;
use vstd::string::*;

verus! {

proof fn lemma_said(a: Seq<char>, needle: Seq<char>, b: Seq<char>)
    ensures
        text::occurs(needle, a + needle + b),
{
    let all = a + needle + b;
    let at = a.len() as int;
    assert(all.subrange(at, at + needle.len()) == needle);
}

proof fn lemma_lines(lines: Seq<String>)
    ensures
        text::texts(lines).len() == lines.len(),
        forall|i: int| 0 <= i < lines.len() ==> (#[trigger] lines[i])@ == text::texts(lines)[i],
{
}

// ---------------------------------------------------------------------------------------------
// Accounts
// ---------------------------------------------------------------------------------------------

/// An account is declared with what was given: its host, its name, its port or else that of its
/// encryption; a word that names no encryption, or no mechanism, declares none.
pub proof fn an_account_is_declared_as_it_was_given(it: Declaration, declared: Result<Server, String>)
    requires
        call_ensures(account::declared, (it,), declared),
    ensures
        declared matches Ok(server) ==> {
            &&& server.host@ == it.host@
            &&& server.username@ == it.username@
            &&& it.port matches Some(port) ==> server.port == port
            &&& it.port is None ==> (server.security == Security::Tls ==> server.port == 993) && (
            server.security == Security::StartTls ==> server.port == 143)
            &&& server.security == Security::Tls ==> it.security@ == "tls"@
            &&& server.security == Security::StartTls ==> it.security@ == "starttls"@
            &&& server.auth == AuthKind::Password ==> it.auth@ == "password"@
            &&& server.auth == AuthKind::OAuth2 ==> it.auth@ == "oauth2"@
        },
        (it.security@ == "tls"@ || it.security@ == "starttls"@) && (it.auth@ == "password"@
            || it.auth@ == "oauth2"@) <==> declared is Ok,
        declared matches Err(why) ==> text::occurs(it.security@, why@) || text::occurs(
            it.auth@,
            why@,
        ),
{
    lemma_said(
        "mode de chiffrement `"@,
        it.security@,
        "` : attendu `tls` ou `starttls`"@,
    );
    lemma_said("mécanisme `"@, it.auth@, "` : attendu `password` ou `oauth2`"@);
}

/// A secret that is held is used again unless it is to be renewed; otherwise a password is asked
/// for, and a token is consented to.
pub proof fn a_secret_that_is_held_is_used_again(
    auth: AuthKind,
    kept: Secret,
    renewed: Secret,
    missing: Secret,
)
    requires
        call_ensures(account::secret, (auth, true, false), kept),
        call_ensures(account::secret, (auth, true, true), renewed),
        call_ensures(account::secret, (auth, false, false), missing),
    ensures
        kept == Secret::Held,
        renewed == missing,
        missing == Secret::Asked <==> auth == AuthKind::Password,
        missing == Secret::Consented <==> auth == AuthKind::OAuth2,
{
}

/// A secret loses the blanks around it and nothing inside, and the mark of a file alone; an empty
/// one is refused.
pub proof fn a_secret_is_kept_as_it_was_typed(
    line: &str,
    marked: &str,
    typed: String,
    read: String,
    client: Option<String>,
    refusal: Option<&'static str>,
)
    requires
        marked@ == seq!['\u{feff}'] + line@,
        call_ensures(account::clean_secret, (line, true), typed),
        call_ensures(account::clean_secret, (marked, false), read),
        call_ensures(account::clean_client_secret, (line, true), client),
        call_ensures(account::secret_refusal, (line,), refusal),
    ensures
        typed@ == text::trimmed(line@),
        read@ == typed@,
        client is Some <==> typed@.len() > 0,
        client matches Some(secret) ==> secret@ == typed@,
        refusal is Some <==> line@.len() == 0,
{
    assert(marked@.skip(1) == line@);
}

/// The consent is asked for by the client that was given, without the blanks around it; without one
/// there is none.
pub proof fn the_client_is_the_one_that_was_given(given: &str, named: Result<String, String>, none: Result<String, String>)
    requires
        call_ensures(account::client, (Some(given),), named),
        call_ensures(account::client, (None,), none),
    ensures
        none is Err,
        named is Ok <==> text::trimmed(given@).len() > 0,
        named matches Ok(id) ==> id@ == text::trimmed(given@),
{
}

/// Where an account sends is what was asked for, and what was left out is that of reading: but for
/// the encryption, which is never guessed. Clearing clears, whatever else was given.
pub proof fn an_account_sends_where_it_was_told_to(
    list: &Vec<FullAccount>,
    k: int,
    reading: Server,
    wanted: Submission,
    plan: Result<SubmissionPlan, String>,
)
    requires
        0 <= k < list@.len(),
        forall|j: int| 0 <= j < k ==> (#[trigger] list@[j]).id != list@[k].id,
        list@[k].server == Some(reading),
        call_ensures(account::submission, (list, list@[k].id, wanted), plan),
    ensures
        wanted.clear ==> plan matches Ok(SubmissionPlan::Clear),
        plan matches Ok(SubmissionPlan::Clear) ==> wanted.clear,
        plan matches Ok(SubmissionPlan::Write(server)) ==> {
            &&& wanted.host matches Some(host) && server.host@ == host@
            &&& wanted.port matches Some(port) ==> server.port == port
            &&& wanted.port is None ==> (server.security == Security::Tls ==> server.port == 465) && (
            server.security == Security::StartTls ==> server.port == 587)
            &&& server.security == Security::Tls <==> wanted.security@ == "tls"@
            &&& wanted.username matches Some(name) ==> server.username@ == name@
            &&& wanted.username is None ==> server.username@ == reading.username@
            &&& wanted.auth is None ==> server.auth == reading.auth
        },
        !wanted.clear && wanted.host is None ==> plan is Err,
{
    accounts::the_rank_is_that_of_the_first(list@, list@[k].id);
    let r = accounts::rank_of(list@, list@[k].id);
    if r < k {
        assert(list@[r].id != list@[k].id);
    } else if k < r {
        assert(list@[k].id != list@[k].id);
    }
    reveal_strlit("tls");
    reveal_strlit("starttls");
    assert("tls"@.len() != "starttls"@.len());
}

/// The account that is forgotten is the one of the number that was given, and none where no account
/// has it.
pub proof fn the_account_that_is_forgotten_is_the_one_that_was_named(
    list: &Vec<FullAccount>,
    id: i64,
    found: Result<usize, String>,
)
    requires
        call_ensures(account::forget, (list, id), found),
    ensures
        found matches Ok(k) ==> k < list@.len() && list@[k as int].id == id
            && list@[k as int].server is Some,
        (forall|k: int| 0 <= k < list@.len() ==> (#[trigger] list@[k]).id != id) ==> found is Err,
        found matches Err(why) ==> text::occurs(text::signed_dec(id as int), why@),
{
    accounts::the_rank_is_that_of_the_first(list@, id);
    let number = text::signed_dec(id as int);
    lemma_said("aucun compte #"@, number, " — voir `mail account list`"@);
    lemma_said("le compte #"@, number, " n'a pas de serveur"@);
}

/// The accounts are listed in order, none left out: one that is read over the network on two lines,
/// where it reads and where it sends, another on one.
#[verifier::spinoff_prover]
#[verifier::rlimit(40)]
pub proof fn every_account_is_listed(accounts: &Vec<(FullAccount, bool)>, lines: Vec<String>, k: int) -> (at: int)
    requires
        call_ensures(account::list, (accounts,), lines),
        0 <= k < accounts@.len(),
    ensures
        0 <= at < lines@.len(),
        at >= k,
        ({
            let it = accounts@[k].0;
            let name = "#"@ + text::signed_dec(it.id as int) + " "@ + it.display_name@;
            &&& text::starts(lines@[at]@, name)
            &&& it.kind == AccountKind::Imap && it.server is Some ==> {
                let server = it.server->0;
                &&& text::occurs(server.host@, lines@[at]@)
                &&& text::occurs(text::dec(server.port as nat), lines@[at]@)
                &&& at + 1 < lines@.len()
                &&& it.submission matches Some(smtp) ==> text::occurs(smtp.host@, lines@[at + 1]@)
                    && text::occurs(text::dec(smtp.port as nat), lines@[at + 1]@)
            }
        }),
{
    lemma_lines(lines@);
    let at = lemma_listed(accounts@, accounts@.len() as int, k);
    let all = account::listed(accounts@, accounts@.len() as int);
    let it = accounts@[k].0;
    let shown = account::account_lines(it, accounts@[k].1);
    assert(all[at] == shown[0]);
    let name = "#"@ + text::signed_dec(it.id as int) + " "@ + it.display_name@;
    assert(shown[0].take(name.len() as int) == name);
    match it.server {
        Some(server) if it.kind == AccountKind::Imap => {
            assert(all[at + 1] == shown[1]);
            let line = account::reading_line(it, server, accounts@[k].1);
            let lead = name + " — imap "@;
            let port = text::dec(server.port as nat);
            let from = lead.len() as int;
            assert(line.subrange(from, from + server.host@.len()) == server.host@);
            let then = (lead + server.host@ + ":"@).len() as int;
            assert(line.subrange(then, then + port.len()) == port);
            match it.submission {
                Some(smtp) => {
                    let sends = account::sending_line(it, server);
                    let head = "    envoi  smtp "@;
                    let number = text::dec(smtp.port as nat);
                    let from = head.len() as int;
                    assert(sends.subrange(from, from + smtp.host@.len()) == smtp.host@);
                    let then = (head + smtp.host@ + ":"@).len() as int;
                    assert(sends.subrange(then, then + number.len()) == number);
                },
                None => {},
            }
        },
        _ => {},
    }
    at
}

#[verifier::spinoff_prover]
proof fn lemma_sends_as(it: FullAccount, server: Server, smtp: Server)
    requires
        it.submission == Some(smtp),
    ensures
        smtp.username@ != server.username@ ==> text::occurs(
            smtp.username@,
            account::sending_line(it, server),
        ),
{
    if smtp.username@ != server.username@ {
        let begun = "    envoi  smtp "@ + smtp.host@ + ":"@ + text::dec(smtp.port as nat) + " "@
            + smtp.security.word() + " "@ + smtp.auth.word();
        let lead = begun + " (identifiant "@;
        assert(account::sending_line(it, server) == begun + (" (identifiant "@ + smtp.username@
            + ")"@));
        assert(account::sending_line(it, server) == lead + smtp.username@ + ")"@);
        lemma_said(lead, smtp.username@, ")"@);
    }
}

#[verifier::spinoff_prover]
proof fn lemma_stands(it: FullAccount, server: Server, stored: bool)
    ensures
        it.enabled ==> text::occurs("[actif]"@, account::reading_line(it, server, stored)),
        !it.enabled ==> text::occurs("[en pause]"@, account::reading_line(it, server, stored)),
        stored ==> text::occurs("secret présent"@, account::reading_line(it, server, stored)),
        !stored ==> text::occurs("secret ABSENT"@, account::reading_line(it, server, stored)),
{
    let begun = "#"@ + text::signed_dec(it.id as int) + " "@ + it.display_name@ + " — imap "@
        + server.host@ + ":"@ + text::dec(server.port as nat) + " "@ + server.security.word() + " "@
        + server.auth.word();
    let state = if it.enabled {
        "actif"@
    } else {
        "en pause"@
    };
    let secret = if stored {
        "présent"@
    } else {
        "ABSENT — `mail account add` pour le poser"@
    };
    let line = account::reading_line(it, server, stored);
    assert(line == begun + " ["@ + state + "], secret "@ + secret);
    reveal_strlit(" [");
    reveal_strlit("], secret ");
    reveal_strlit("actif");
    reveal_strlit("en pause");
    reveal_strlit("[actif]");
    reveal_strlit("[en pause]");
    reveal_strlit("présent");
    reveal_strlit("ABSENT — `mail account add` pour le poser");
    reveal_strlit("secret présent");
    reveal_strlit("secret ABSENT");
    let boxed = seq!['['] + state + seq![']'];
    let tail = ", secret "@;
    reveal_strlit(", secret ");
    assert("], secret "@ == seq![']'] + tail);
    assert(" ["@ == seq![' ', '[']);
    let lead = begun + seq![' '];
    assert(line == lead + boxed + (tail + secret));
    lemma_said(lead, boxed, tail + secret);
    assert(it.enabled ==> boxed == "[actif]"@);
    assert(!it.enabled ==> boxed == "[en pause]"@);
    let words = if stored {
        "secret présent"@
    } else {
        "secret ABSENT"@
    };
    let rest = if stored {
        Seq::<char>::empty()
    } else {
        secret.skip(6)
    };
    assert(tail + secret == seq![',', ' '] + words + rest);
    let before = lead + boxed + seq![',', ' '];
    assert(line == before + words + rest);
    lemma_said(before, words, rest);
}

/// An account that is read over the network is listed as it stands: at work or paused, with its secret
/// or without, and with the name that it sends under where that is another.
#[verifier::spinoff_prover]
pub proof fn an_account_is_listed_as_it_stands(
    accounts: &Vec<(FullAccount, bool)>,
    lines: Vec<String>,
    k: int,
    server: Server,
) -> (at: int)
    requires
        call_ensures(account::list, (accounts,), lines),
        0 <= k < accounts@.len(),
        accounts@[k].0.kind == AccountKind::Imap,
        accounts@[k].0.server == Some(server),
    ensures
        0 <= at && at + 1 < lines@.len(),
        text::starts(
            lines@[at]@,
            "#"@ + text::signed_dec(accounts@[k].0.id as int) + " "@ + accounts@[k].0.display_name@,
        ),
        accounts@[k].0.enabled ==> text::occurs("[actif]"@, lines@[at]@),
        !accounts@[k].0.enabled ==> text::occurs("[en pause]"@, lines@[at]@),
        accounts@[k].1 ==> text::occurs("secret présent"@, lines@[at]@),
        !accounts@[k].1 ==> text::occurs("secret ABSENT"@, lines@[at]@),
        accounts@[k].0.submission matches Some(smtp) ==> smtp.username@ != server.username@
            ==> text::occurs(smtp.username@, lines@[at + 1]@),
{
    lemma_lines(lines@);
    let at = lemma_listed(accounts@, accounts@.len() as int, k);
    let it = accounts@[k].0;
    let shown = account::account_lines(it, accounts@[k].1);
    assert(lines@[at]@ == shown[0]);
    assert(lines@[at + 1]@ == shown[1]);
    let name = "#"@ + text::signed_dec(it.id as int) + " "@ + it.display_name@;
    assert(shown[0].take(name.len() as int) == name);
    lemma_stands(it, server, accounts@[k].1);
    match it.submission {
        Some(smtp) => {
            lemma_sends_as(it, server, smtp);
        },
        None => {},
    }
    at
}

#[verifier::spinoff_prover]
#[verifier::rlimit(40)]
proof fn lemma_listed(accounts: Seq<(FullAccount, bool)>, n: int, k: int) -> (at: int)
    requires
        0 <= k < n <= accounts.len(),
    ensures
        k <= at,
        at + account::account_lines(accounts[k].0, accounts[k].1).len() <= account::listed(
            accounts,
            n,
        ).len(),
        account::account_lines(accounts[k].0, accounts[k].1).len() >= 1,
        account::listed(accounts, n)[at] == account::account_lines(
            accounts[k].0,
            accounts[k].1,
        )[0],
        account::account_lines(accounts[k].0, accounts[k].1).len() > 1 ==> account::listed(
            accounts,
            n,
        )[at + 1] == account::account_lines(accounts[k].0, accounts[k].1)[1],
    decreases n,
{
    let before = account::listed(accounts, n - 1);
    let shown = account::account_lines(accounts[n - 1].0, accounts[n - 1].1);
    let all = account::listed(accounts, n);
    assert(all == before + shown);
    if k == n - 1 {
        lemma_listed_grows(accounts, n - 1);
        before.len() as int
    } else {
        let at = lemma_listed(accounts, n - 1, k);
        assert(all[at] == before[at]);
        at
    }
}

proof fn lemma_listed_grows(accounts: Seq<(FullAccount, bool)>, n: int)
    requires
        0 <= n <= accounts.len(),
    ensures
        account::listed(accounts, n).len() >= n,
    decreases n,
{
    if n > 0 {
        lemma_listed_grows(accounts, n - 1);
    }
}

// ---------------------------------------------------------------------------------------------
// The source of a message
// ---------------------------------------------------------------------------------------------

/// What is read is what was named: a message by its number, a line of the queue by its own, each by
/// its own method, and nothing where nothing, or both, was named.
pub proof fn the_source_that_is_read_is_the_one_that_was_named(
    id: i64,
    message: Result<Target, String>,
    line: Result<Target, String>,
    neither: Result<Target, String>,
    both: Result<Target, String>,
    a: Named,
    b: Named,
)
    requires
        call_ensures(source::source_target, (Some(id), None), message),
        call_ensures(source::source_target, (None, Some(id)), line),
        call_ensures(source::source_target, (None, None), neither),
        call_ensures(source::source_target, (Some(id), Some(id)), both),
        message matches Ok(target) ==> call_ensures(Target::named, (target,), a),
        line matches Ok(target) ==> call_ensures(Target::named, (target,), b),
    ensures
        message is Ok && line is Ok && neither is Err && both is Err,
        a.method == Method::MessagesSource && a.id == id,
        b.method == Method::OutboxSource && b.id == id,
        text::occurs(text::signed_dec(id as int), a.what@),
        text::occurs(text::signed_dec(id as int), b.what@),
        a.what@ != b.what@,
{
    let number = text::signed_dec(id as int);
    lemma_said("message #"@, number, Seq::empty());
    assert("message #"@ + number + Seq::<char>::empty() == "message #"@ + number);
    lemma_said("file d'envoi #"@, number, Seq::empty());
    assert("file d'envoi #"@ + number + Seq::<char>::empty() == "file d'envoi #"@ + number);
    reveal_strlit("message #");
    reveal_strlit("file d'envoi #");
    assert(a.what@[0] == 'm');
    assert(b.what@[0] == 'f');
}

/// A source is printed whole: first what it is, then its headers, then its body where it was not
/// left out; what was cut, or made visible, is said.
pub proof fn a_source_is_printed_whole(
    what: &str,
    source: &MessageSource,
    size: &str,
    whole: String,
    head: String,
)
    requires
        call_ensures(source::print, (what, source, size, false), whole),
        call_ensures(source::print, (what, source, size, true), head),
    ensures
        text::starts(whole@, head@),
        text::starts(head@, what@),
        head@.len() >= source.headers@.len(),
        head@.skip(head@.len() - source.headers@.len()) == source.headers@,
        text::occurs(source.body@, whole@.skip(head@.len() as int)),
        !source.body_truncated ==> whole@.skip(whole@.len() - source.body@.len()) == source.body@,
        source.body_truncated ==> text::occurs(size@, whole@.skip(head@.len() as int)),
{
    source::the_headers_alone_begin_the_whole(what@, *source, size@);
    let before = source::reservations(what@, *source, size@);
    assert(head@ == before + source.headers@);
    assert(head@.skip(head@.len() - source.headers@.len()) == source.headers@);
    assert(before.take(what@.len() as int) == what@);
    assert(head@.take(what@.len() as int) == what@);
    let rest = whole@.skip(head@.len() as int);
    let end = if source.body_truncated {
        "\n[corps tronqué — le message fait "@ + size@ + "]\n"@
    } else {
        Seq::empty()
    };
    assert(rest == "\n"@ + source.body@ + end);
    lemma_said("\n"@, source.body@, end);
    if source.body_truncated {
        let lead = "\n"@ + source.body@ + "\n[corps tronqué — le message fait "@;
        assert(rest == lead + size@ + "]\n"@);
        lemma_said(lead, size@, "]\n"@);
    } else {
        assert(whole@.skip(whole@.len() - source.body@.len()) == source.body@);
    }
}

// ---------------------------------------------------------------------------------------------
// Synchronising
// ---------------------------------------------------------------------------------------------

/// The accounts that are synchronised are those that are read over the network and not paused, in
/// order, and the one that was named alone where one was.
pub proof fn the_accounts_that_are_synchronised_are_those_that_were_meant(
    list: &Vec<FullAccount>,
    only: Option<i64>,
    wanted: Wanted,
    k: usize,
)
    requires
        call_ensures(sync::wanted, (list, only), wanted),
        k < list@.len(),
    ensures
        wanted.ranks@.contains(k) <==> {
            &&& list@[k as int].kind == AccountKind::Imap
            &&& list@[k as int].enabled
            &&& only matches Some(id) ==> list@[k as int].id == id
        },
        forall|i: int, j: int|
            0 <= i < j < wanted.ranks@.len() ==> (#[trigger] wanted.ranks@[i]) < (
            #[trigger] wanted.ranks@[j]),
        wanted.ranks@.len() == 0 ==> wanted.lines@.len() > 0,
{
    let ranks = sync::ranks_of(wanted.ranks@);
    sync::the_active_accounts_are_taken(list@, only, k as int);
    assert(wanted.ranks@.contains(k) <==> ranks.contains(k as int)) by {
        if wanted.ranks@.contains(k) {
            let i = choose|i: int| 0 <= i < wanted.ranks@.len() && wanted.ranks@[i] == k;
            assert(ranks[i] == k);
        }
        if ranks.contains(k as int) {
            let i = choose|i: int| 0 <= i < ranks.len() && ranks[i] == k;
            assert(wanted.ranks@[i] == k);
        }
    }
    lemma_taken_in_order(list@, only, list@.len() as int);
    assert forall|i: int, j: int| 0 <= i < j < wanted.ranks@.len() implies (
    #[trigger] wanted.ranks@[i]) < (#[trigger] wanted.ranks@[j]) by {
        assert(ranks[i] < ranks[j]);
    }
    lemma_lines(wanted.lines@);
}

proof fn lemma_taken_in_order(list: Seq<FullAccount>, only: Option<i64>, n: int)
    requires
        0 <= n <= list.len(),
    ensures
        ({
            let all = sync::taken(list, only, n);
            &&& forall|i: int| 0 <= i < all.len() ==> 0 <= #[trigger] all[i] < n
            &&& forall|i: int, j: int|
                0 <= i < j < all.len() ==> (#[trigger] all[i]) < (#[trigger] all[j])
        }),
    decreases n,
{
    if n > 0 {
        lemma_taken_in_order(list, only, n - 1);
        let before = sync::taken(list, only, n - 1);
        let all = sync::taken(list, only, n);
        assert forall|i: int| 0 <= i < all.len() implies 0 <= #[trigger] all[i] < n by {
            if i < before.len() {
                assert(all[i] == before[i]);
            }
        }
        assert forall|i: int, j: int| 0 <= i < j < all.len() implies (#[trigger] all[i]) < (
        #[trigger] all[j]) by {
            assert(all[i] == before[i]);
            if j < before.len() {
                assert(all[j] == before[j]);
            }
        }
    }
}

proof fn lemma_report(it: FullAccount, tally: Tally, rate: Seq<char>)
    ensures
        ({
            let all = sync::report_text(it, tally, rate);
            let failures = text::texts(tally.failures@);
            &&& all.len() >= 6 + failures.len()
            &&& all[1] == "Compte #"@ + text::signed_dec(it.id as int) + " — "@ + it.display_name@
            &&& all[2] == "  Dossiers        "@ + text::dec(tally.folders as nat) + " ("@
                + text::dec(tally.skipped as nat) + " déjà à jour, sans EXAMINE)"@
            &&& all[3] == "  Corps reçus     "@ + text::dec(tally.fetched as nat)
            &&& all[4] == "  Nouveaux        "@ + text::dec(tally.stored as nat) + " ("@
                + text::dec(tally.duplicates as nat) + " déjà connus)"@
            &&& tally.vanished > 0 ==> all[5] == "  Disparus        "@ + text::dec(
                tally.vanished as nat,
            )
            &&& failures.len() == 0 ==> all[all.len() - 1] == "  Verdict         terminé"@
            &&& forall|i: int|
                0 <= i < failures.len() ==> all[all.len() - failures.len() + i] == "    - "@
                    + #[trigger] failures[i]
        }),
{
    let failures = text::texts(tally.failures@);
    let all = sync::report_text(it, tally, rate);
    let s5 = Seq::<Seq<char>>::empty().push(""@).push(
        "Compte #"@ + text::signed_dec(it.id as int) + " — "@ + it.display_name@,
    ).push(
        "  Dossiers        "@ + text::dec(tally.folders as nat) + " ("@ + text::dec(
            tally.skipped as nat,
        ) + " déjà à jour, sans EXAMINE)"@,
    ).push("  Corps reçus     "@ + text::dec(tally.fetched as nat)).push(
        "  Nouveaux        "@ + text::dec(tally.stored as nat) + " ("@ + text::dec(
            tally.duplicates as nat,
        ) + " déjà connus)"@,
    );
    let s6 = if tally.vanished > 0 {
        s5.push("  Disparus        "@ + text::dec(tally.vanished as nat))
    } else {
        s5
    };
    let s7 = if tally.fetched > 0 {
        s6.push("  Dédup           "@ + rate + " % du reçu était déjà dans le store"@)
    } else {
        s6
    };
    let s9 = if failures.len() == 0 {
        s7.push("  Verdict         terminé"@)
    } else {
        s7.push("  Verdict         "@ + text::dec(tally.failures@.len() as nat) + " échec(s) :"@)
    };
    queue::lemma_each_said(s9, "    - "@, failures);
    assert(all == text::each_said(s9, "    - "@, failures));
    assert(all[1] == s9[1] && all[2] == s9[2] && all[3] == s9[3] && all[4] == s9[4] && all[5]
        == s9[5]);
    if failures.len() == 0 {
        assert(all[all.len() - 1] == s9[s9.len() - 1]);
    }
}

/// The report of a synchronisation names the account, and says of each count what it counts; it is
/// finished where nothing failed, and every failure is listed otherwise.
pub proof fn a_synchronisation_says_what_came_of_it(
    it: &FullAccount,
    tally: &Tally,
    rate: &str,
    lines: Vec<String>,
)
    requires
        call_ensures(sync::report, (it, tally, rate), lines),
    ensures
        lines@.len() >= 6,
        lines@[1]@ == "Compte #"@ + text::signed_dec(it.id as int) + " — "@ + it.display_name@,
        text::starts(lines@[2]@, "  Dossiers        "@ + text::dec(tally.folders as nat)),
        lines@[3]@ == "  Corps reçus     "@ + text::dec(tally.fetched as nat),
        text::starts(lines@[4]@, "  Nouveaux        "@ + text::dec(tally.stored as nat)),
        text::occurs(text::dec(tally.duplicates as nat), lines@[4]@),
        text::occurs(text::dec(tally.skipped as nat), lines@[2]@),
        tally.vanished > 0 ==> lines@[5]@ == "  Disparus        "@ + text::dec(
            tally.vanished as nat,
        ),
        tally.failures@.len() == 0 ==> lines@[lines@.len() - 1]@ == "  Verdict         terminé"@,
        forall|i: int|
            0 <= i < tally.failures@.len() ==> (#[trigger] tally.failures@[i])@.len() + 6
                == lines@[lines@.len() - tally.failures@.len() + i]@.len()
                && lines@[lines@.len() - tally.failures@.len() + i]@ == "    - "@
                + tally.failures@[i]@,
{
    lemma_lines(lines@);
    let all = sync::report_text(*it, *tally, rate@);
    lemma_report(*it, *tally, rate@);
    let a = "  Dossiers        "@ + text::dec(tally.folders as nat);
    assert(lines@[2]@.take(a.len() as int) == a);
    lemma_said(a + " ("@, text::dec(tally.skipped as nat), " déjà à jour, sans EXAMINE)"@);
    let b = "  Nouveaux        "@ + text::dec(tally.stored as nat);
    assert(lines@[4]@.take(b.len() as int) == b);
    lemma_said(b + " ("@, text::dec(tally.duplicates as nat), " déjà connus)"@);
    reveal_strlit("    - ");
    lemma_lines(tally.failures@);
    assert forall|i: int| 0 <= i < tally.failures@.len() implies (
    #[trigger] tally.failures@[i])@.len() + 6
        == lines@[lines@.len() - tally.failures@.len() + i]@.len()
        && lines@[lines@.len() - tally.failures@.len() + i]@ == "    - "@
        + tally.failures@[i]@ by {
        assert(all[all.len() - tally.failures@.len() + i] == "    - "@ + text::texts(
            tally.failures@,
        )[i]);
    }
}

/// A command that went through accounts fails where one of them did, and only there; a failure is
/// to be tried again or mended, as the server said.
pub proof fn one_failure_makes_a_command_fail(
    fine: &Vec<bool>,
    what: &str,
    failed: Option<String>,
    why: &str,
    again: String,
    mended: String,
    words: String,
    tally: Tally,
)
    requires
        call_ensures(sync::failure, (fine, what), failed),
        call_ensures(sync::with_advice, (why, true), again),
        call_ensures(sync::with_advice, (why, false), mended),
        call_ensures(sync::failed, (words,), tally),
    ensures
        failed is Some <==> exists|i: int| 0 <= i < fine@.len() && !(#[trigger] fine@[i]),
        again@ == why@ + " (à réessayer)"@,
        mended@ == why@ + " (à corriger)"@,
        tally.failures@.len() == 1 && tally.failures@[0]@ == words@,
        tally.fetched == 0 && tally.stored == 0 && tally.folders == 0,
{
    lemma_lines(tally.failures@);
    if failed is Some {
        assert(!sync::all_fine(fine@));
    }
}

// ---------------------------------------------------------------------------------------------
// Where a command is carried out
// ---------------------------------------------------------------------------------------------

/// With a daemon, what touches secrets, accounts or files is refused, what reads is asked of it, and
/// the rest is a task of it, with the options that were given.
pub proof fn a_command_is_carried_out_where_it_may_be(command: &Command, way: Way)
    requires
        call_ensures(dispatch::remote, (command,), way),
    ensures
        way is Refused <==> *command is Contacts || *command is Send || *command is Outbox
            || *command is Account || *command is Doctor,
        way is Ask <==> *command is Daemon || *command is Source || *command is Search
            || *command is Stats,
        *command matches Command::Sync { account } ==> (way matches Way::Job(job) && job.kind@
            == "sync"@ && job.account == account && job.follow),
        *command matches Command::Index { detach } ==> (way matches Way::Job(job) && job.kind@
            == "index"@ && job.follow == !detach),
        *command matches Command::Thread { detach } ==> (way matches Way::Job(job) && job.kind@
            == "thread"@ && job.follow == !detach),
        *command matches Command::Import {
            profile: _,
            source,
            dry_run,
            include_feeds,
            include_orphans,
            detach,
        } ==> (way matches Way::Job(job) && job.kind@ == "import"@ && job.source == source
            && job.dry_run == dry_run && job.include_feeds == include_feeds && job.include_orphans
            == include_orphans && job.follow == !detach),
{
}

/// Without a daemon a command is carried out here, unless it lacks what it needs.
pub proof fn a_command_that_lacks_something_is_refused(command: &Command, way: Way)
    requires
        call_ensures(dispatch::local, (command,), way),
    ensures
        way is Refused || way is Here,
        way is Refused <==> {
            ||| *command is Daemon
            ||| (*command matches Command::Import {
                profile,
                source: _,
                dry_run: _,
                include_feeds: _,
                include_orphans: _,
                detach: _,
            } && profile is None)
            ||| (*command matches Command::Send { account, flush } && account is None && !flush)
        },
{
}

// ---------------------------------------------------------------------------------------------
// The diagnosis
// ---------------------------------------------------------------------------------------------

proof fn lemma_checkup(it: Checkup) -> (at: int)
    ensures
        ({
            let all = doctor::checkup_text(it);
            let shown = doctor::findings_text(it);
            &&& all.len() >= shown.len() + 5
            &&& all[0] == "Store              "@ + it.root@
            &&& all[1] == "Contenus distincts "@ + text::dec(it.messages as nat)
            &&& all[2] == "Références         "@ + text::dec(it.refs as nat)
            &&& shown.len() == 0 ==> all[all.len() - 1] == "Aucune incohérence."@
            &&& shown.len() > 0 ==> all[all.len() - shown.len() - 1] == text::dec(shown.len())
                + " points à regarder :"@
            &&& forall|i: int|
                0 <= i < shown.len() ==> all[all.len() - shown.len() + i] == "  - "@
                    + #[trigger] shown[i]
            &&& it.queue@.len() > 0 ==> 0 <= at < all.len() && all[at] == "File d'envoi       "@
                + text::dec(
                doctor::count_of(it.queue@, SendState::Queued) + doctor::count_of(
                    it.queue@,
                    SendState::Sending,
                ),
            ) + " en attente, "@ + text::dec(doctor::count_of(it.queue@, SendState::Sent))
                + " envoyés, "@ + text::dec(doctor::count_of(it.queue@, SendState::Failed))
                + " échoués"@
        }),
{
    let all = doctor::checkup_text(it);
    let shown = doctor::findings_text(it);
    let s4 = Seq::<Seq<char>>::empty().push("Store              "@ + it.root@).push(
        "Contenus distincts "@ + text::dec(it.messages as nat),
    ).push("Références         "@ + text::dec(it.refs as nat)).push(
        "Octets RFC 5322    "@ + it.size@,
    );
    let s5 = match it.purge {
        Some(purge) => s4.push(""@).push(
            "Purge              "@ + text::dec(purge.removed as nat) + " blobs supprimés, "@
                + purge.freed@ + " rendus"@,
        ),
        None => s4,
    };
    let s6 = match it.index {
        Ok(indexed) => s5.push("Documents indexés  "@ + text::dec(indexed as nat)),
        Err(_) => s5,
    };
    let s7 = if it.queue@.len() > 0 {
        s6.push(
            "File d'envoi       "@ + text::dec(
                doctor::count_of(it.queue@, SendState::Queued) + doctor::count_of(
                    it.queue@,
                    SendState::Sending,
                ),
            ) + " en attente, "@ + text::dec(doctor::count_of(it.queue@, SendState::Sent))
                + " envoyés, "@ + text::dec(doctor::count_of(it.queue@, SendState::Failed))
                + " échoués"@,
        )
    } else {
        s6
    };
    let s8 = s7.push(""@);
    let at = s6.len() as int;
    let head = if shown.len() == 0 {
        s8.push("Aucune incohérence."@)
    } else {
        s8.push(text::dec(shown.len()) + " points à regarder :"@)
    };
    queue::lemma_each_said(head, "  - "@, shown);
    assert(all == text::each_said(head, "  - "@, shown));
    assert(all[0] == head[0] && all[1] == head[1] && all[2] == head[2]);
    assert(all[head.len() - 1] == head[head.len() - 1]);
    if it.queue@.len() > 0 {
        assert(all[at] == head[at]);
    }
    at
}

/// A store is said to be sound exactly where nothing is amiss; otherwise every finding is listed, and
/// their number is said first.
pub proof fn nothing_amiss_goes_unreported(it: &Checkup, found: Vec<String>, lines: Vec<String>)
    requires
        call_ensures(doctor::findings, (it,), found),
        call_ensures(doctor::report, (it,), lines),
    ensures
        found@.len() == 0 <==> it.dangling == 0 && it.missing@.len() == 0 && (it.orphans == 0
            || it.purge is Some) && (it.purge matches Some(purge) ==> purge.failed == 0)
            && it.index == Ok::<u64, String>(it.messages) && it.unthreaded == 0
            && it.doubtful@.len() == 0,
        found@.len() == 0 ==> lines@[lines@.len() - 1]@ == "Aucune incohérence."@,
        found@.len() > 0 ==> text::starts(
            lines@[lines@.len() - found@.len() - 1]@,
            text::dec(found@.len()),
        ),
        forall|i: int|
            0 <= i < found@.len() ==> lines@[lines@.len() - found@.len() + i]@ == "  - "@ + (
            #[trigger] found@[i])@,
        lines@[0]@ == "Store              "@ + it.root@,
        lines@[1]@ == "Contenus distincts "@ + text::dec(it.messages as nat),
        lines@[2]@ == "Références         "@ + text::dec(it.refs as nat),
{
    doctor::nothing_amiss_goes_unsaid(*it);
    lemma_lines(found@);
    lemma_lines(lines@);
    let all = doctor::checkup_text(*it);
    let shown = doctor::findings_text(*it);
    let n = text::dec(shown.len());
    lemma_checkup(*it);
    if shown.len() > 0 {
        let line = n + " points à regarder :"@;
        assert(line.take(n.len() as int) == n);
        assert(all[all.len() - shown.len() - 1] == line);
        assert forall|i: int| 0 <= i < found@.len() implies lines@[lines@.len() - found@.len()
            + i]@ == "  - "@ + (#[trigger] found@[i])@ by {
            assert(all[all.len() - shown.len() + i] == "  - "@ + shown[i]);
        }
    }
}

/// The queue is counted as it stands: what waits or is on its way, what has left, and what failed.
pub proof fn the_queue_is_counted_as_it_stands(it: &Checkup, lines: Vec<String>) -> (at: int)
    requires
        call_ensures(doctor::report, (it,), lines),
        it.queue@.len() > 0,
    ensures
        0 <= at < lines@.len(),
        ({
            let waiting = it.queue@.filter(
                |s: SendState| s == SendState::Queued || s == SendState::Sending,
            ).len();
            let left = it.queue@.filter(|s: SendState| s == SendState::Sent).len();
            let failed = it.queue@.filter(|s: SendState| s == SendState::Failed).len();
            lines@[at]@ == "File d'envoi       "@ + text::dec(waiting) + " en attente, "@
                + text::dec(left) + " envoyés, "@ + text::dec(failed) + " échoués"@
        }),
{
    lemma_lines(lines@);
    let n = it.queue@.len() as int;
    assert(it.queue@.take(n) == it.queue@);
    lemma_standing(it.queue@, n);
    lemma_checkup(*it)
}

proof fn lemma_standing(queue: Seq<SendState>, n: int)
    requires
        0 <= n <= queue.len(),
    ensures
        ({
            let waits = |s: SendState| s == SendState::Queued || s == SendState::Sending;
            let sent = |s: SendState| s == SendState::Sent;
            let failed = |s: SendState| s == SendState::Failed;
            &&& doctor::standing(queue, SendState::Queued, n) + doctor::standing(
                queue,
                SendState::Sending,
                n,
            ) == queue.take(n).filter(waits).len()
            &&& doctor::standing(queue, SendState::Sent, n) == queue.take(n).filter(sent).len()
            &&& doctor::standing(queue, SendState::Failed, n) == queue.take(n).filter(failed).len()
        }),
    decreases n,
{
    reveal(Seq::filter);
    if n > 0 {
        lemma_standing(queue, n - 1);
        assert(queue.take(n).drop_last() == queue.take(n - 1));
        assert(queue.take(n).last() == queue[n - 1]);
    }
}

/// An account that was forgotten is told by its number; where it had a token, the user is also told
/// that it stays good at the provider, and where to revoke it.
pub proof fn a_forgotten_token_is_to_be_revoked(id: i64, token: Vec<String>, password: Vec<String>)
    requires
        call_ensures(account::forgotten_lines, (id, AuthKind::OAuth2), token),
        call_ensures(account::forgotten_lines, (id, AuthKind::Password), password),
    ensures
        password@.len() == 2,
        token@.len() == 7,
        text::occurs("compte #"@ + text::signed_dec(id as int), password@[0]@),
        text::occurs("compte #"@ + text::signed_dec(id as int), token@[0]@),
        token@[5]@ == "  Google    myaccount.google.com/permissions"@,
        token@[6]@ == "  Microsoft myapplications.microsoft.com"@,
{
    lemma_lines(token@);
    lemma_lines(password@);
    reveal_strlit("Secret oublié, synchronisation du compte #");
    reveal_strlit("compte #");
    let all = "Secret oublié, synchronisation du compte #"@;
    let lead = all.take(all.len() - 8);
    assert(all == lead + "compte #"@);
    let named = "compte #"@ + text::signed_dec(id as int);
    assert(password@[0]@ == lead + named + " en pause."@);
    assert(token@[0]@ == lead + named + " en pause."@);
    lemma_said(lead, named, " en pause."@);
}

/// Where one account was named and is paused, that is said of it, and of no account that is not; where
/// none was named nothing is said of a pause.
pub proof fn a_named_account_that_is_paused_is_said_to_be(
    list: &Vec<FullAccount>,
    only: Option<i64>,
    wanted: Wanted,
)
    requires
        call_ensures(sync::wanted, (list, only), wanted),
    ensures
        only is None ==> wanted.lines@.len() == (if wanted.ranks@.len() == 0 {
            1int
        } else {
            0int
        }),
        only matches Some(id) ==> wanted.lines@.len() == paused_ones(list@, id) + (
        if wanted.ranks@.len() == 0 {
            1int
        } else {
            0int
        }),
{
    lemma_lines(wanted.lines@);
    match only {
        Some(id) => {
            lemma_paused(list@, id, list@.len() as int);
            assert(list@.take(list@.len() as int) == list@);
        },
        None => {},
    }
}

/// How many accounts of this number are read over the network and paused.
pub open spec fn paused_ones(list: Seq<FullAccount>, id: i64) -> nat
    decreases list.len(),
{
    if list.len() == 0 {
        0
    } else {
        paused_ones(list.drop_last(), id) + if list.last().id == id && list.last().kind
            == AccountKind::Imap && !list.last().enabled {
            1nat
        } else {
            0nat
        }
    }
}

proof fn lemma_paused(list: Seq<FullAccount>, id: i64, n: int)
    requires
        0 <= n <= list.len(),
    ensures
        sync::paused(list, Some(id), n).len() == paused_ones(list.take(n), id),
    decreases n,
{
    if n > 0 {
        lemma_paused(list, id, n - 1);
        assert(list.take(n).drop_last() == list.take(n - 1));
        assert(list.take(n).last() == list[n - 1]);
    }
}

} // verus!
