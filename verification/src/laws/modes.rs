//! The words of an account: each names one thing, and a form says what was typed in it.
use crate::account_work;
use crate::account_work::{ConsentEnd, SecretStep};
use crate::accounts;
use crate::accounts::{AuthKind, FullAccount, Security, Server};
use crate::settings;
use crate::settings::{AccountForm, ConsentForm, SubmissionForm};
use crate::text;
use vstd::prelude::*;
use vstd::string::*;

verus! {

/// The word of a mode names that mode, no other word does, and each mode has its own ports.
pub proof fn the_word_of_a_mode_names_it(
    security: Security,
    word: &'static str,
    read: Option<Security>,
    other: &str,
    known: Option<Security>,
    reading: u16,
    sending: u16,
)
    requires
        call_ensures(Security::as_str, (security,), word),
        call_ensures(Security::parse, (word,), read),
        call_ensures(Security::parse, (other,), known),
        call_ensures(Security::default_port, (security,), reading),
        call_ensures(Security::submission_port, (security,), sending),
    ensures
        read == Some(security),
        known == Some(security) ==> other@ == word@,
        security == Security::Tls ==> word@ == "tls"@ && reading == 993 && sending == 465,
        security == Security::StartTls ==> word@ == "starttls"@ && reading == 143 && sending == 587,
{
    accounts::words_name_one_mode(security, AuthKind::Password);
}

/// The word of a mechanism names that mechanism, and no other word does.
pub proof fn the_word_of_a_mechanism_names_it(
    auth: AuthKind,
    word: &'static str,
    read: Option<AuthKind>,
    other: &str,
    known: Option<AuthKind>,
)
    requires
        call_ensures(AuthKind::as_str, (auth,), word),
        call_ensures(AuthKind::parse, (word,), read),
        call_ensures(AuthKind::parse, (other,), known),
    ensures
        read == Some(auth),
        known == Some(auth) ==> other@ == word@,
        auth == AuthKind::Password ==> word@ == "password"@,
        auth == AuthKind::OAuth2 ==> word@ == "oauth2"@,
{
    accounts::words_name_one_mode(Security::Tls, auth);
}

/// A blank field stands for the usual port, and a text that is no port is handed back as it was
/// typed.
pub proof fn a_blank_port_is_the_usual_one(field: &str, default: u16, port: Result<u16, String>)
    requires
        call_ensures(accounts::choose_port, (field, default), port),
    ensures
        text::trimmed(field@).len() == 0 ==> port == Ok::<u16, String>(default),
        port matches Err(given) ==> given@ == text::trimmed(field@) && given@.len() > 0,
        port matches Ok(p) ==> text::trimmed(field@).len() > 0 ==> text::number_up_to(
            text::trimmed(field@),
            65535,
        ) == Some(p as nat),
{
}

/// An account is found by its number: the first that has it, and none where no account does.
pub proof fn an_account_is_found_by_its_number(
    list: &Vec<FullAccount>,
    id: i64,
    found: Option<usize>,
)
    requires
        call_ensures(accounts::find, (list, id), found),
    ensures
        found matches Some(k) ==> k < list@.len() && list@[k as int].id == id && forall|j: int|
            0 <= j < k ==> (#[trigger] list@[j]).id != id,
        found is None ==> forall|j: int| 0 <= j < list@.len() ==> (#[trigger] list@[j]).id != id,
{
    accounts::the_rank_is_that_of_the_first(list@, id);
}

/// The host that is proposed for sending is that of the same provider: `smtp` where it was `imap`,
/// and none is made up for another host.
pub proof fn the_proposed_host_is_that_of_the_provider(
    domain: Seq<char>,
    host: &str,
    other: &str,
    proposed: String,
    offered: Option<String>,
    kept: String,
    none: Option<String>,
)
    requires
        host@ == "imap."@ + domain,
        !text::starts(other@, "imap."@),
        call_ensures(accounts::suggest_submission, (host,), proposed),
        call_ensures(settings::suggested_submission, (host,), offered),
        call_ensures(accounts::suggest_submission, (other,), kept),
        call_ensures(settings::suggested_submission, (other,), none),
    ensures
        proposed@ == "smtp."@ + domain,
        text::opt_text(offered) == Some("smtp."@ + domain),
        kept@ == other@,
        none is None,
{
    let n = "imap."@.len() as int;
    assert(host@.take(n) == "imap."@);
    assert(host@.skip(n) == domain);
}

/// The host of a server stands before its port.
pub proof fn the_host_stands_before_the_port(
    host: Seq<char>,
    port: Seq<char>,
    server: &str,
    found: String,
)
    requires
        server@ == host + seq![':'] + port,
        !host.contains(':'),
        call_ensures(accounts::server_host, (server,), found),
    ensures
        found@ == host,
{
    lemma_host(host, port);
}

pub proof fn lemma_host(host: Seq<char>, port: Seq<char>)
    requires
        !host.contains(':'),
    ensures
        accounts::host_part(host + seq![':'] + port) == host,
    decreases host.len(),
{
    let all = host + seq![':'] + port;
    if host.len() > 0 {
        let rest = host.drop_first();
        assert(host[0] != ':');
        assert forall|k: int| 0 <= k < rest.len() implies rest[k] != ':' by {
            assert(host[k + 1] == rest[k]);
        }
        lemma_host(rest, port);
        assert(all.drop_first() == rest + seq![':'] + port);
        assert(seq![all[0]] + rest == host);
    } else {
        assert(all[0] == ':');
        assert(accounts::host_part(all) == Seq::<char>::empty());
    }
}

proof fn lemma_said(a: Seq<char>, needle: Seq<char>, b: Seq<char>)
    ensures
        text::occurs(needle, a + needle + b),
{
    let all = a + needle + b;
    let at = a.len() as int;
    assert(all.subrange(at, at + needle.len()) == needle);
}

/// What is said of an account that was written names it, its server and what became of its secret.
pub proof fn what_was_written_is_named(
    id: i64,
    server: &Server,
    step: SecretStep,
    declared: String,
    submitted: String,
    address: String,
)
    requires
        call_ensures(account_work::declared_text, (id, server, step), declared),
        call_ensures(account_work::submission_text, (id, server), submitted),
        call_ensures(account_work::address, (server,), address),
    ensures
        address@ == server.host@ + seq![':'] + text::dec(server.port as nat),
        text::starts(declared@, "Compte #"@ + text::signed_dec(id as int)),
        text::occurs(address@, declared@),
        step == SecretStep::Write ==> text::occurs("secret enregistré dans le trousseau"@, declared@),
        text::starts(submitted@, "Compte #"@ + text::signed_dec(id as int)),
        text::occurs(address@, submitted@),
{
    reveal_strlit(":");
    assert(":"@ == seq![':']);
    let lead = "Compte #"@ + text::signed_dec(id as int);
    assert(declared@.take(lead.len() as int) == lead);
    assert(submitted@.take(lead.len() as int) == lead);
    let tail = " "@ + server.security.word() + " "@ + server.auth.word() + " · "@
        + account_work::step_note(step) + "."@;
    assert(declared@ == (lead + " enregistré — "@) + address@ + tail);
    lemma_said(lead + " enregistré — "@, address@, tail);
    let note = account_work::step_note(step);
    let before = lead + " enregistré — "@ + address@ + " "@ + server.security.word() + " "@
        + server.auth.word() + " · "@;
    assert(declared@ == before + note + "."@);
    lemma_said(before, note, "."@);
    let end = " "@ + server.security.word() + ". Rien n'a été envoyé."@;
    assert(submitted@ == (lead + " : envoi par "@) + address@ + end);
    lemma_said(lead + " : envoi par "@, address@, end);
}

/// The secret that is forgotten is that of the account that was chosen, and of none through a
/// service on another machine; a token that stays valid elsewhere is said to.
pub proof fn the_secret_that_is_forgotten_is_that_of_the_account(
    id: i64,
    list: &Vec<FullAccount>,
    here: Result<usize, String>,
    elsewhere: Result<usize, String>,
    password: String,
    token: String,
)
    requires
        call_ensures(account_work::forget_account, (id, false, list), here),
        call_ensures(account_work::forget_account, (id, true, list), elsewhere),
        call_ensures(account_work::forgotten_text, (id, AuthKind::Password), password),
        call_ensures(account_work::forgotten_text, (id, AuthKind::OAuth2), token),
    ensures
        here matches Ok(k) ==> k < list@.len() && list@[k as int].id == id,
        here is Err ==> forall|k: int|
            0 <= k < list@.len() && (#[trigger] list@[k]).id == id && list@[k].server is Some
                ==> exists|j: int| 0 <= j < k && (#[trigger] list@[j]).id == id,
        elsewhere is Err,
        text::starts(password@, "Compte #"@ + text::signed_dec(id as int)),
        text::starts(token@, password@),
        token@.len() > password@.len(),
{
    accounts::the_rank_is_that_of_the_first(list@, id);
    let lead = "Compte #"@ + text::signed_dec(id as int);
    assert(password@.take(lead.len() as int) == lead);
    assert(token@.take(password@.len() as int) == password@);
    reveal_strlit(
        " Le jeton reste valide chez le fournisseur : le révoquer se fait dans son écran de sécurité.",
    );
    assert(token@.len() > password@.len());
    if here is Err {
        assert forall|k: int|
            0 <= k < list@.len() && (#[trigger] list@[k]).id == id
                && list@[k].server is Some implies exists|j: int|
            0 <= j < k && (#[trigger] list@[j]).id == id by {
            let r = accounts::rank_of(list@, id);
            if r >= list@.len() || r > k {
                assert(list@[k].id != id);
            }
            assert(r < k);
            assert(list@[r].id == id);
        }
    }
}

/// A consent succeeded where its tokens were stored, and nowhere else; a refusal is told in the
/// words of the provider.
pub proof fn a_consent_succeeded_where_its_tokens_are_stored(
    host: &str,
    username: &str,
    end: ConsentEnd,
    words: String,
    said: Result<String, String>,
    refused: Result<String, String>,
)
    requires
        call_ensures(account_work::consent_said, (host, username, end), said),
        call_ensures(account_work::consent_said, (host, username, ConsentEnd::Refused(words)), refused),
    ensures
        said is Ok <==> end is Stored,
        said matches Ok(sentence) ==> text::occurs(username@, sentence@),
        end is NoProvider ==> (said matches Err(sentence) && text::occurs(host@, sentence@)),
        end matches ConsentEnd::NotStored(why) ==> (said matches Err(sentence) && text::occurs(
            why@,
            sentence@,
        )),
        refused matches Err(sentence) && sentence@ == words@,
{
    match end {
        ConsentEnd::NotStored(why) => {
            lemma_said("trousseau : "@, why@, Seq::empty());
            assert("trousseau : "@ + why@ + Seq::<char>::empty() == "trousseau : "@ + why@);
        },
        _ => {},
    }
    lemma_said(
        "Jeton obtenu pour "@,
        username@,
        " et rangé dans le trousseau. Déclarez le compte : le formulaire le réadoptera sans rien redemander."@,
    );
    lemma_said(
        "aucun fournisseur OAuth2 connu pour "@,
        host@,
        ". Utiliser un mot de passe applicatif avec le mécanisme `password`."@,
    );
}

/// A form starts blank, in an encrypted mode, for the account that was chosen; a copy of a form says
/// the same.
pub proof fn a_form_starts_blank(
    declared: AccountForm,
    host: String,
    username: String,
    consent: ConsentForm,
    account: i64,
    submission: SubmissionForm,
    copied: AccountForm,
)
    requires
        call_ensures(AccountForm::new, (), declared),
        call_ensures(ConsentForm::for_account, (host, username), consent),
        call_ensures(SubmissionForm::for_account, (account,), submission),
        call_ensures(AccountForm::copy, (&declared,), copied),
    ensures
        declared.host@ == ""@ && declared.port@ == ""@ && declared.username@ == ""@
            && declared.secret@ == ""@,
        declared.security@ == "tls"@ && declared.auth@ == "password"@,
        consent.host@ == host@ && consent.username@ == username@,
        consent.client_id@ == ""@ && consent.client_secret@ == ""@,
        submission.account == account && submission.host@ == ""@ && submission.security@
            == "starttls"@,
        copied == declared,
{
}

/// What is printed of two forms that differ by their secrets alone is the same.
pub proof fn a_printed_form_holds_no_secret(
    a: &AccountForm,
    b: &AccountForm,
    first: String,
    second: String,
    c: &ConsentForm,
    d: &ConsentForm,
    third: String,
    fourth: String,
)
    requires
        call_ensures(AccountForm::masked, (a,), first),
        call_ensures(AccountForm::masked, (b,), second),
        a.host@ == b.host@ && a.port@ == b.port@ && a.username@ == b.username@,
        a.security@ == b.security@ && a.auth@ == b.auth@,
        a.secret@.len() > 0 && b.secret@.len() > 0,
        call_ensures(ConsentForm::masked, (c,), third),
        call_ensures(ConsentForm::masked, (d,), fourth),
        c.host@ == d.host@ && c.username@ == d.username@ && c.client_id@ == d.client_id@,
        c.redirect_port@ == d.redirect_port@,
        c.client_secret@.len() > 0 && d.client_secret@.len() > 0,
    ensures
        first@ == second@,
        third@ == fourth@,
{
}

} // verus!
