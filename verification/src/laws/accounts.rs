//! Accounts: a server is what its form says, and a click is about the account that it is on.
use crate::account_work;
use crate::accounts;
use crate::accounts::{AuthKind, FullAccount, Security, Server};
use crate::settings;
use crate::settings::{
    AccountDetail, AccountForm, Card, Click, ConsentForm, Outcome, Page, SubmissionForm,
};
use crate::text;
use vstd::prelude::*;
use vstd::string::*;

verus! {

/// Whether a field is blank.
pub open spec fn is_blank(field: Seq<char>) -> bool {
    text::trimmed(field).len() == 0
}

/// An account that is declared is read where the form says: at its host, as its user, with its
/// encryption and its mechanism, on its port, or on the usual one of the encryption where it gives
/// none.
pub proof fn an_account_is_read_where_the_form_says(
    form: &AccountForm,
    remote: bool,
    outcome: Result<Server, String>,
)
    requires
        call_ensures(account_work::check_declaration, (form, remote), outcome),
    ensures
        outcome matches Ok(server) ==> {
            &&& server.host@ == text::trimmed(form.host@)
            &&& server.username@ == text::trimmed(form.username@)
            &&& form.security@ == "tls"@ ==> server.security is Tls
            &&& form.security@ == "starttls"@ ==> server.security is StartTls
            &&& form.auth@ == "password"@ ==> server.auth is Password
            &&& form.auth@ == "oauth2"@ ==> server.auth is OAuth2
            &&& is_blank(form.port@) && server.security is Tls ==> server.port == 993
            &&& is_blank(form.port@) && server.security is StartTls ==> server.port == 143
            &&& !is_blank(form.port@) ==> text::number_up_to(text::trimmed(form.port@), 65535)
                == Some(server.port as nat)
            &&& !remote
        },
        outcome is Err <==> is_blank(form.host@) || is_blank(form.username@) || remote || !(
        form.security@ == "tls"@ || form.security@ == "starttls"@) || !(form.auth@ == "password"@
            || form.auth@ == "oauth2"@) || (!is_blank(form.port@) && text::number_up_to(
            text::trimmed(form.port@),
            65535,
        ) is None),
{
    accounts::words_name_one_mode(Security::Tls, AuthKind::Password);
    accounts::words_name_one_mode(Security::StartTls, AuthKind::OAuth2);
}

/// A submission server is the one that its form says, for the account that the form names, with the
/// user and the mechanism of reading.
pub proof fn mail_is_sent_where_the_form_says(
    form: &SubmissionForm,
    remote: bool,
    list: &Vec<FullAccount>,
    k: int,
    outcome: Result<Server, String>,
)
    requires
        call_ensures(account_work::set_submission, (form, remote, list), outcome),
        0 <= k < list@.len(),
        list@[k].id == form.account,
        forall|j: int| 0 <= j < k ==> (#[trigger] list@[j]).id != form.account,
    ensures
        outcome matches Ok(server) ==> {
            &&& list@[k].server matches Some(reading)
            &&& server.username@ == reading.username@
            &&& server.auth == reading.auth
            &&& server.host@ == text::trimmed(form.host@)
            &&& form.security@ == "tls"@ ==> server.security is Tls
            &&& form.security@ == "starttls"@ ==> server.security is StartTls
            &&& is_blank(form.port@) && server.security is Tls ==> server.port == 465
            &&& is_blank(form.port@) && server.security is StartTls ==> server.port == 587
            &&& !is_blank(form.port@) ==> text::number_up_to(text::trimmed(form.port@), 65535)
                == Some(server.port as nat)
            &&& !remote
        },
        list@[k].server is None ==> outcome is Err,
        remote ==> outcome is Err,
        list@[k].server is Some && !remote && !is_blank(form.host@) && (form.security@ == "tls"@
            || form.security@ == "starttls"@) && is_blank(form.port@) ==> outcome is Ok,
{
    accounts::the_rank_is_that_of_the_first(list@, form.account);
    let r = accounts::rank_of(list@, form.account);
    if r < k {
        assert(list@[r].id != form.account);
    } else if k < r {
        assert(list@[k].id != form.account);
    }
    accounts::words_name_one_mode(Security::Tls, AuthKind::Password);
    accounts::words_name_one_mode(Security::StartTls, AuthKind::OAuth2);
}

/// A typed password is written to the keyring, one that is there already is used again, and an
/// account without either is refused; a token is never typed.
pub proof fn a_secret_is_written_where_one_was_typed(
    secret: &str,
    already: bool,
    password: Result<account_work::SecretStep, String>,
    token: Result<account_work::SecretStep, String>,
)
    requires
        call_ensures(
            account_work::choose_secret,
            (AuthKind::Password, already, secret),
            password,
        ),
        call_ensures(account_work::choose_secret, (AuthKind::OAuth2, already, secret), token),
    ensures
        !is_blank(secret@) ==> (password matches Ok(step) && step is Write),
        is_blank(secret@) && already ==> (password matches Ok(step) && step is Reuse),
        is_blank(secret@) && !already ==> password is Err,
        already ==> (token matches Ok(step) && step is Adopt),
        !already ==> token is Err,
{
}

/// What the page is told of an account is what the store has of it: its number, its name, where it
/// is read, as whom and how, where it sends, and whether it is active. Of a secret it is told
/// whether there is one.
pub proof fn the_page_is_told_what_the_store_has(
    account: &FullAccount,
    secret: bool,
    detail: AccountDetail,
)
    requires
        call_ensures(account_work::account_detail, (account, secret), detail),
    ensures
        detail.id == account.id,
        detail.name@ == account.display_name@,
        detail.enabled == account.enabled,
        account.server matches Some(server) ==> {
            &&& accounts::host_part(server.host@) == server.host@ ==> accounts::host_part(
                detail.server@,
            ) == server.host@
            &&& text::starts(detail.server@, server.host@)
            &&& detail.server@.skip(server.host@.len() + 1int) == text::dec(server.port as nat)
            &&& detail.username@ == server.username@
            &&& accounts::security_of(detail.security@) == Some(server.security)
            &&& accounts::auth_of(detail.auth@) == Some(server.auth)
            &&& detail.secret == secret
        },
        account.server is None ==> !detail.secret && detail.username@.len() == 0,
        account.submission is None <==> detail.submission is None,
        account.submission matches Some(server) ==> (detail.submission matches Some(words)
            && text::starts(words@, server.host@)),
{
    reveal_strlit("");
    reveal_strlit(":");
    match account.server {
        Some(server) => {
            accounts::words_name_one_mode(server.security, server.auth);
            let rest = text::dec(server.port as nat);
            let whole = server.host@ + ":"@ + rest;
            assert(whole.take(server.host@.len() as int) == server.host@);
            assert(whole.skip(server.host@.len() + 1int) == rest);
            if accounts::host_part(server.host@) == server.host@ {
                lemma_host_part(server.host@, rest);
                assert(whole == server.host@.push(':') + rest);
            }
        },
        None => {},
    }
    match account.submission {
        Some(server) => {
            let whole = server.host@ + ":"@ + text::dec(server.port as nat) + " "@
                + server.security.word();
            assert(whole.take(server.host@.len() as int) == server.host@);
        },
        None => {},
    }
}

/// The host of a `host:port` is what stands before its first colon.
proof fn lemma_host_part(host: Seq<char>, rest: Seq<char>)
    requires
        accounts::host_part(host) == host,
    ensures
        accounts::host_part(host.push(':') + rest) == host,
    decreases host.len(),
{
    let whole = host.push(':') + rest;
    if host.len() > 0 {
        let tail = host.drop_first();
        assert(whole[0] == host[0]);
        assert(host[0] != ':');
        assert(accounts::host_part(tail) == tail) by {
            let all = seq![host[0]] + accounts::host_part(tail);
            assert(all == host);
            assert(all.drop_first() == accounts::host_part(tail));
        }
        lemma_host_part(tail, rest);
        assert(whole.drop_first() == tail.push(':') + rest);
        assert(seq![host[0]] + tail == host);
    } else {
        assert(whole[0] == ':');
    }
}

/// A consent is asked for with what the form says: a blank client secret is none.
pub proof fn a_consent_is_asked_for_with_what_the_form_says(
    form: &ConsentForm,
    request: account_work::ConsentRequest,
)
    requires
        call_ensures(account_work::consent_request, (form,), request),
    ensures
        request.host@ == text::trimmed(form.host@),
        request.username@ == text::trimmed(form.username@),
        request.client_id@ == text::trimmed(form.client_id@),
        is_blank(form.client_secret@) ==> request.client_secret is None,
        !is_blank(form.client_secret@) ==> (request.client_secret matches Some(secret) && secret@
            == text::trimmed(form.client_secret@)),
        request.redirect_port matches Some(port) ==> text::number_up_to(
            text::trimmed(form.redirect_port@),
            65535,
        ) == Some(port as nat),
{
}

// ---------------------------------------------------------------------------------------------
// The settings page
// ---------------------------------------------------------------------------------------------

/// A click on an account is about that account: it is that one that is synchronised, whose sending
/// is set, whose consent is asked for and whose secret is forgotten, the last only once confirmed.
pub proof fn a_click_is_about_the_account_it_is_on(
    k: usize,
    sync: &mut Page,
    synced: Outcome,
    sending: &mut Page,
    set: Outcome,
    consent: &mut Page,
    consented: Outcome,
    forget: &mut Page,
    asked: Outcome,
    confirm: &mut Page,
    confirmed: Outcome,
)
    requires
        call_ensures(Page::click, (sync, Click::Sync(k)), synced),
        call_ensures(Page::click, (sending, Click::Sending(k)), set),
        call_ensures(Page::click, (consent, Click::Consent(k)), consented),
        call_ensures(Page::click, (forget, Click::Forget(k)), asked),
        call_ensures(Page::click, (confirm, Click::ConfirmForget(k)), confirmed),
        k < old(sync).accounts@.len(),
        k < old(sending).accounts@.len(),
        k < old(consent).accounts@.len(),
        k < old(forget).accounts@.len(),
        k < old(confirm).accounts@.len(),
    ensures
        old(sync).accounts@[k as int].secret && old(sync).accounts@[k as int].enabled ==> synced
            == Outcome::Sync(old(sync).accounts@[k as int].id),
        !(old(sync).accounts@[k as int].secret && old(sync).accounts@[k as int].enabled)
            ==> synced is Idle,
        *final(sync) == *old(sync),
        !old(sending).remote ==> (final(sending).submitting matches Some(form) && form.account
            == old(sending).accounts@[k as int].id && is_blank_text(form.host@)
            && is_blank_text(form.port@) && form.security@ == "starttls"@),
        old(sending).remote ==> *final(sending) == *old(sending),
        set is Idle && consented is Idle && asked is Idle,
        !old(consent).remote && old(consent).accounts@[k as int].auth@ == "oauth2"@ ==> (
        final(consent).consenting matches Some(form) && form.username@ == old(
            consent,
        ).accounts@[k as int].username@ && form.host@ == accounts::host_part(
            old(consent).accounts@[k as int].server@,
        ) && is_blank_text(form.client_secret@)),
        old(consent).remote || old(consent).accounts@[k as int].auth@ != "oauth2"@
            ==> *final(consent) == *old(consent),
        final(consent).declaring == old(consent).declaring,
        final(consent).submitting == old(consent).submitting,
        !old(forget).remote ==> final(forget).forgetting == Some(
            old(forget).accounts@[k as int].id,
        ),
        old(forget).remote ==> *final(forget) == *old(forget),
        confirmed matches Outcome::Forget(id) ==> id == old(confirm).accounts@[k as int].id
            && old(confirm).forgetting == Some(id) && final(confirm).forgetting is None,
        old(confirm).forgetting == Some(old(confirm).accounts@[k as int].id)
            ==> confirmed is Forget,
        old(confirm).forgetting != Some(old(confirm).accounts@[k as int].id)
            ==> confirmed is Idle && *final(confirm) == *old(confirm),
{
    reveal_strlit("");
}

/// Whether a text holds nothing.
pub open spec fn is_blank_text(s: Seq<char>) -> bool {
    s.len() == 0
}

/// What is saved is what the form that is open says, and a form that is given up asks for nothing.
pub proof fn what_is_saved_is_what_the_form_says(
    declared: &mut Page,
    a: Outcome,
    submitted: &mut Page,
    b: Outcome,
    cancelled: &mut Page,
    c: Outcome,
    left: &mut Page,
    d: Outcome,
)
    requires
        call_ensures(Page::click, (declared, Click::SaveDeclaration), a),
        call_ensures(Page::click, (submitted, Click::SaveSubmission), b),
        call_ensures(Page::click, (cancelled, Click::CancelDeclaration), c),
        call_ensures(Page::click, (left, Click::CancelSubmission), d),
    ensures
        old(declared).declaring matches Some(form) ==> !is_blank(form.host@) && !is_blank(
            form.username@,
        ) ==> (a matches Outcome::Declare(it) && it.host@ == form.host@ && it.port@ == form.port@
            && it.username@ == form.username@ && it.security@ == form.security@ && it.auth@
            == form.auth@ && it.secret@ == form.secret@),
        old(declared).declaring is None ==> a is Idle,
        *final(declared) == *old(declared),
        old(submitted).submitting matches Some(form) ==> !is_blank(form.host@) ==> (b matches
            Outcome::Submission(it) && it.account == form.account && it.host@ == form.host@
            && it.port@ == form.port@ && it.security@ == form.security@),
        *final(submitted) == *old(submitted),
        c is Idle && final(cancelled).declaring is None && final(cancelled).submitting == old(
            cancelled,
        ).submitting,
        d is Idle && final(left).submitting is None && final(left).declaring == old(
            left,
        ).declaring,
{
}

/// The page shows every account, in order: its number and name, where and how it is read, where it
/// sends, whether its secret is there, and never anything of a secret itself.
pub proof fn the_page_shows_every_account(page: &Page, cards: Vec<Card>)
    requires
        call_ensures(Page::list, (page,), cards),
    ensures
        cards@.len() == page.accounts@.len(),
        forall|i: int|
            0 <= i < cards@.len() ==> {
                let account = page.accounts@[i];
                let card = #[trigger] cards@[i];
                &&& text::occurs(account.name@, card.title@)
                &&& text::occurs(text::signed_dec(account.id as int), card.title@)
                &&& text::starts(card.line@, account.server@)
                &&& text::occurs(account.username@, card.line@)
                &&& text::starts(
                    card.line@,
                    account.server@ + " · "@ + account.username@ + " · "@ + account.security@,
                )
                &&& text::occurs(account.auth@, card.line@)
                &&& account.secret <==> card.secret@ == "secret dans le trousseau"@
                &&& card.consent is Some <==> !page.remote && account.auth@ == "oauth2"@
                &&& card.paused == !account.enabled
                &&& card.syncable == (account.secret && account.enabled)
                &&& card.writable == !page.remote
                &&& card.confirming == (page.forgetting == Some(account.id))
                &&& account.submission matches Some(server) ==> text::occurs(
                    server@,
                    card.sending@,
                )
            },
        forall|i: int, j: int|
            0 <= i < cards@.len() && 0 <= j < cards@.len() && page.accounts@[i].secret
                != page.accounts@[j].secret ==> (#[trigger] cards@[i]).secret@ != (
            #[trigger] cards@[j]).secret@,
{
    reveal_strlit("secret dans le trousseau");
    reveal_strlit("aucun secret enregistré");
    assert("secret dans le trousseau"@[0] != "aucun secret enregistré"@[0]);
    assert forall|i: int| 0 <= i < cards@.len() implies {
        let account = page.accounts@[i];
        let card = #[trigger] cards@[i];
        &&& text::occurs(account.name@, card.title@)
        &&& text::occurs(text::signed_dec(account.id as int), card.title@)
        &&& text::starts(card.line@, account.server@)
        &&& text::occurs(account.username@, card.line@)
        &&& text::starts(
            card.line@,
            account.server@ + " · "@ + account.username@ + " · "@ + account.security@,
        )
        &&& text::occurs(account.auth@, card.line@)
        &&& account.submission matches Some(server) ==> text::occurs(server@, card.sending@)
    } by {
        let account = page.accounts@[i];
        let card = cards@[i];
        assert(settings::shows(card, account, page.remote, page.forgetting));
        let id = text::signed_dec(account.id as int);
        let at = "#"@.len() as int;
        assert(card.title@.subrange(at, at + id.len()) == id);
        let at = ("#"@ + id + " "@).len() as int;
        assert(card.title@.subrange(at, at + account.name@.len()) == account.name@);
        assert(card.line@.take(account.server@.len() as int) == account.server@);
        let at = (account.server@ + " · "@).len() as int;
        assert(card.line@.subrange(at, at + account.username@.len()) == account.username@);
        let begun = account.server@ + " · "@ + account.username@ + " · "@ + account.security@;
        assert(card.line@.take(begun.len() as int) == begun);
        let at = (begun + " · "@).len() as int;
        assert(card.line@.subrange(at, at + account.auth@.len()) == account.auth@);
        match account.submission {
            Some(server) => {
                let at = "envoi par "@.len() as int;
                assert(card.sending@.subrange(at, at + server@.len()) == server@);
            },
            None => {},
        }
    }
}

/// A consent is asked for with the form that is open and no other, once: not while its page is open
/// in the browser. Until then it can be given up, and only it is.
pub proof fn a_consent_is_asked_for_once(
    page: &mut Page,
    asked: Outcome,
    left: &mut Page,
    given_up: Outcome,
)
    requires
        call_ensures(Page::click, (page, Click::OpenBrowser), asked),
        call_ensures(Page::click, (left, Click::CancelConsent), given_up),
    ensures
        *final(page) == *old(page),
        asked is Consent ==> old(page).consent_url is None,
        old(page).consenting matches Some(form) ==> (!is_blank(form.client_id@) && old(
            page,
        ).consent_url is None <==> asked is Consent),
        old(page).consenting matches Some(form) ==> (asked matches Outcome::Consent(it) ==> it.host@
            == form.host@ && it.username@ == form.username@ && it.client_id@ == form.client_id@
            && it.client_secret@ == form.client_secret@ && it.redirect_port@
            == form.redirect_port@),
        old(page).consenting is None ==> asked is Idle,
        given_up is Idle,
        old(left).consent_url is None ==> final(left).consenting is None,
        old(left).consent_url is Some ==> final(left).consenting == old(left).consenting,
        final(left).declaring == old(left).declaring,
        final(left).submitting == old(left).submitting,
        final(left).forgetting == old(left).forgetting,
        final(left).consent_url == old(left).consent_url,
{
}

/// A secret that is kept stays, and the question is put away; a declaration starts from an empty form
/// with an encrypted connection, here and not at a daemon; a host that is offered goes into the open
/// form, where the rest stays as it was typed.
pub proof fn a_form_starts_as_it_should(
    k: usize,
    kept: &mut Page,
    a: Outcome,
    declared: &mut Page,
    b: Outcome,
    used: &mut Page,
    c: Outcome,
)
    requires
        call_ensures(Page::click, (kept, Click::KeepSecret(k)), a),
        k < old(kept).accounts@.len(),
        old(kept).forgetting == Some(old(kept).accounts@[k as int].id),
        call_ensures(Page::click, (declared, Click::Declare), b),
        call_ensures(Page::click, (used, Click::UseSuggestion), c),
    ensures
        a is Idle && b is Idle && c is Idle,
        final(kept).forgetting is None,
        final(kept).accounts == old(kept).accounts,
        final(kept).consenting == old(kept).consenting,
        old(declared).remote ==> *final(declared) == *old(declared),
        old(declared).declaring is Some ==> final(declared).declaring == old(declared).declaring,
        old(declared).declaring is None && !old(declared).remote ==> (
        final(declared).declaring matches Some(form) && is_blank_text(form.host@) && is_blank_text(
            form.username@,
        ) && is_blank_text(form.secret@) && is_blank_text(form.port@) && form.security@ == "tls"@
            && form.auth@ == "password"@),
        old(used).submitting matches Some(form) ==> (final(used).submitting matches Some(it)
            && it.account == form.account && it.port == form.port && it.security
            == form.security),
        old(used).submitting is None ==> *final(used) == *old(used),
        final(used).declaring == old(used).declaring,
        final(used).accounts == old(used).accounts,
{
    reveal_strlit("");
}

} // verus!
