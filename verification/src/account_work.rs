//! What the settings page asks of the accounts: the checks, the refusals, and the sentences.
//!
//! The form is checked first, then the service: a remote one is refused before anything is
//! written, in the keyring or in the store.
use crate::accounts;
use crate::accounts::{AuthKind, FullAccount, Security, Server};
use crate::settings::{AccountDetail, AccountForm, ConsentForm, SubmissionForm};
use crate::text;
use vstd::prelude::*;
use vstd::string::*;

verus! {

/// Why the page writes nothing on a remote service.
pub open spec fn remote_refusal() -> Seq<char> {
    "les comptes se déclarent sur la machine du démon : c'est son trousseau qui porte le secret. Lancer la coquille sans --daemon, ou `mail account …` là-bas."@
}

/// Why the page writes nothing on a remote service.
pub fn remote_refusal_text() -> (r: &'static str)
    ensures
        r@ == remote_refusal(),
{
    "les comptes se déclarent sur la machine du démon : c'est son trousseau qui porte le secret. Lancer la coquille sans --daemon, ou `mail account …` là-bas."
}

// ---------------------------------------------------------------------------------------------
// Declaring an account
// ---------------------------------------------------------------------------------------------

/// Why a declaration form is refused, where it is: the first of the form's own faults, then the
/// service being remote.
pub open spec fn declaration_refusal(form: AccountForm, remote: bool) -> Option<Seq<char>> {
    if text::trimmed(form.host@).len() == 0 || text::trimmed(form.username@).len() == 0 {
        Some("un serveur et un identifiant, au minimum"@)
    } else if accounts::security_of(form.security@) is None {
        Some("chiffrement `"@ + form.security@ + "` : attendu tls ou starttls"@)
    } else if accounts::auth_of(form.auth@) is None {
        Some("mécanisme `"@ + form.auth@ + "` : attendu password ou oauth2"@)
    } else if accounts::chosen_port(
        form.port@,
        accounts::security_of(form.security@)->0.reading_port(),
    ) is None {
        Some("port `"@ + text::trimmed(form.port@) + "` : attendu un nombre"@)
    } else if remote {
        Some(remote_refusal())
    } else {
        None
    }
}

/// Whether a server is the one that a declaration form describes.
pub open spec fn declared(form: AccountForm, server: Server) -> bool {
    &&& server.host@ == text::trimmed(form.host@)
    &&& server.username@ == text::trimmed(form.username@)
    &&& accounts::security_of(form.security@) == Some(server.security)
    &&& accounts::auth_of(form.auth@) == Some(server.auth)
    &&& accounts::chosen_port(form.port@, server.security.reading_port()) == Some(server.port)
}

/// Checks a declaration form, and gives the server that it describes.
pub fn check_declaration(form: &AccountForm, remote: bool) -> (r: Result<Server, String>)
    ensures
        match r {
            Ok(server) => declaration_refusal(*form, remote) is None && declared(*form, server),
            Err(message) => declaration_refusal(*form, remote) == Some(message@),
        },
{
    let host = text::trim(form.host.as_str());
    let username = text::trim(form.username.as_str());
    if host.as_str().unicode_len() == 0 || username.as_str().unicode_len() == 0 {
        return Err("un serveur et un identifiant, au minimum".to_owned());
    }
    let security = match Security::parse(form.security.as_str()) {
        Some(security) => security,
        None => {
            let mut message = "chiffrement `".to_owned();
            message.append(form.security.as_str());
            message.append("` : attendu tls ou starttls");
            return Err(message);
        },
    };
    let auth = match AuthKind::parse(form.auth.as_str()) {
        Some(auth) => auth,
        None => {
            let mut message = "mécanisme `".to_owned();
            message.append(form.auth.as_str());
            message.append("` : attendu password ou oauth2");
            return Err(message);
        },
    };
    let port = match accounts::choose_port(form.port.as_str(), security.default_port()) {
        Ok(port) => port,
        Err(given) => {
            let mut message = "port `".to_owned();
            message.append(given.as_str());
            message.append("` : attendu un nombre");
            return Err(message);
        },
    };
    if remote {
        return Err(remote_refusal_text().to_owned());
    }
    Ok(Server { host, port, username, auth, security })
}

/// What is done about the secret of an account that is declared.
#[derive(Debug, Clone, Copy, PartialEq, Eq, Structural)]
pub enum SecretStep {
    /// The typed secret goes to the keyring, in the place of the one that may be there.
    Write,
    /// The keyring has a password: it serves again.
    Reuse,
    /// The keyring has a token: it is adopted again.
    Adopt,
}

/// What is done about a secret, where `already` says whether the keyring has one and `typed`
/// whether the form does. None where the account would have no secret at all.
pub open spec fn secret_step(auth: AuthKind, already: bool, typed: bool) -> Option<SecretStep> {
    match auth {
        AuthKind::Password => if typed {
            Some(SecretStep::Write)
        } else if already {
            Some(SecretStep::Reuse)
        } else {
            None
        },
        AuthKind::OAuth2 => if already {
            Some(SecretStep::Adopt)
        } else {
            None
        },
    }
}

/// Why an account without a secret is refused.
pub open spec fn secret_refusal(auth: AuthKind) -> Seq<char> {
    match auth {
        AuthKind::Password => "aucun secret dans le trousseau pour ce compte : il en faut un"@,
        AuthKind::OAuth2 => "aucun jeton OAuth2 dans le trousseau pour ce compte. Le consentement n'est pas encore dans cette page : `mail account add --auth oauth2 --client-id …` l'obtient, puis ce formulaire le réadoptera."@,
    }
}

/// What the sentence says of the secret.
pub open spec fn step_note(step: SecretStep) -> Seq<char> {
    match step {
        SecretStep::Write => "secret enregistré dans le trousseau"@,
        SecretStep::Reuse => "secret déjà dans le trousseau, réutilisé"@,
        SecretStep::Adopt => "jeton OAuth2 déjà dans le trousseau, réadopté"@,
    }
}

/// Decides what is done about the secret of a declared account. A typed secret is trimmed; a
/// blank one is none.
pub fn choose_secret(auth: AuthKind, already: bool, secret: &str) -> (r: Result<SecretStep, String>)
    ensures
        match r {
            Ok(step) => secret_step(auth, already, text::trimmed(secret@).len() > 0) == Some(step),
            Err(message) => secret_step(auth, already, text::trimmed(secret@).len() > 0) is None
                && message@ == secret_refusal(auth),
        },
{
    let typed = text::trim(secret).as_str().unicode_len() > 0;
    match auth {
        AuthKind::Password => if typed {
            Ok(SecretStep::Write)
        } else if already {
            Ok(SecretStep::Reuse)
        } else {
            Err("aucun secret dans le trousseau pour ce compte : il en faut un".to_owned())
        },
        AuthKind::OAuth2 => if already {
            Ok(SecretStep::Adopt)
        } else {
            Err(
                "aucun jeton OAuth2 dans le trousseau pour ce compte. Le consentement n'est pas encore dans cette page : `mail account add --auth oauth2 --client-id …` l'obtient, puis ce formulaire le réadoptera.".to_owned(),
            )
        },
    }
}

/// What the page says of an account that was declared.
pub fn declared_text(id: i64, server: &Server, step: SecretStep) -> (r: String)
    ensures
        r@ == "Compte #"@ + text::signed_dec(id as int) + " enregistré — "@ + server.host@ + ":"@
            + text::dec(server.port as nat) + " "@ + server.security.word() + " "@
            + server.auth.word() + " · "@ + step_note(step) + "."@,
{
    let mut out = "Compte #".to_owned();
    out.append(text::decimal_signed(id).as_str());
    out.append(" enregistré — ");
    out.append(server.host.as_str());
    out.append(":");
    out.append(text::decimal(server.port as u64).as_str());
    out.append(" ");
    out.append(server.security.as_str());
    out.append(" ");
    out.append(server.auth.as_str());
    out.append(" · ");
    out.append(
        match step {
            SecretStep::Write => "secret enregistré dans le trousseau",
            SecretStep::Reuse => "secret déjà dans le trousseau, réutilisé",
            SecretStep::Adopt => "jeton OAuth2 déjà dans le trousseau, réadopté",
        },
    );
    out.append(".");
    out
}

/// A declared account never stays without a secret, and the keyring is written to for a typed
/// password alone.
pub proof fn a_declared_account_has_a_secret(auth: AuthKind, already: bool, typed: bool)
    ensures
        secret_step(auth, already, typed) == Some(SecretStep::Write) <==> auth
            == AuthKind::Password && typed,
        secret_step(auth, already, typed) is Some ==> already || (auth == AuthKind::Password
            && typed),
        already ==> secret_step(auth, already, typed) is Some,
{
}

// ---------------------------------------------------------------------------------------------
// The submission server
// ---------------------------------------------------------------------------------------------

/// Why a submission form is refused, where it is, before the accounts are looked at.
pub open spec fn submission_refusal(form: SubmissionForm, remote: bool) -> Option<Seq<char>> {
    if text::trimmed(form.host@).len() == 0 {
        Some("un serveur d'envoi, au minimum"@)
    } else if accounts::security_of(form.security@) is None {
        Some("chiffrement `"@ + form.security@ + "` : attendu tls ou starttls"@)
    } else if accounts::chosen_port(
        form.port@,
        accounts::security_of(form.security@)->0.sending_port(),
    ) is None {
        Some("port `"@ + text::trimmed(form.port@) + "` : attendu un nombre"@)
    } else if remote {
        Some(remote_refusal())
    } else {
        None
    }
}

/// Why the account of a submission form cannot be written, where it cannot.
pub open spec fn account_refusal(list: Seq<FullAccount>, id: i64) -> Option<Seq<char>> {
    let k = accounts::rank_of(list, id);
    if k >= list.len() {
        Some("aucun compte #"@ + text::signed_dec(id as int))
    } else if list[k].server is None {
        Some("le compte #"@ + text::signed_dec(id as int) + " n'a pas de serveur"@)
    } else {
        None
    }
}

/// Finds the account that is written to, or says why it cannot be.
pub fn writable_account(list: &Vec<FullAccount>, id: i64) -> (r: Result<usize, String>)
    ensures
        match r {
            Ok(k) => account_refusal(list@, id) is None && k == accounts::rank_of(list@, id) && k
                < list@.len() && list@[k as int].server is Some,
            Err(message) => account_refusal(list@, id) == Some(message@),
        },
{
    match accounts::find(list, id) {
        Some(k) => {
            if list[k].server.is_none() {
                let mut message = "le compte #".to_owned();
                message.append(text::decimal_signed(id).as_str());
                message.append(" n'a pas de serveur");
                return Err(message);
            }
            Ok(k)
        },
        None => {
            let mut message = "aucun compte #".to_owned();
            message.append(text::decimal_signed(id).as_str());
            Err(message)
        },
    }
}

/// Whether a server is the one that a submission form describes for an account: the identifier
/// and the mechanism are those of reading, the encryption is the form's and never guessed.
pub open spec fn submitted(form: SubmissionForm, reading: Server, server: Server) -> bool {
    &&& server.host@ == text::trimmed(form.host@)
    &&& server.username@ == reading.username@
    &&& server.auth == reading.auth
    &&& accounts::security_of(form.security@) == Some(server.security)
    &&& accounts::chosen_port(form.port@, server.security.sending_port()) == Some(server.port)
}

/// The encryption of a server is the one that its form names, for reading and for sending alike: it
/// is never guessed, from the port or from anything else.
pub proof fn the_encryption_is_never_guessed(
    form: AccountForm,
    reading: Server,
    submission: SubmissionForm,
    sending: Server,
)
    requires
        declared(form, reading),
        submitted(submission, reading, sending),
    ensures
        reading.security.word() == form.security@,
        sending.security.word() == submission.security@,
{
}

/// Checks a submission form against the accounts, and gives the server that it describes.
pub fn set_submission(form: &SubmissionForm, remote: bool, list: &Vec<FullAccount>) -> (r: Result<
    Server,
    String,
>)
    ensures
        match r {
            Ok(server) => {
                &&& submission_refusal(*form, remote) is None
                &&& account_refusal(list@, form.account) is None
                &&& submitted(
                    *form,
                    list@[accounts::rank_of(list@, form.account)].server->0,
                    server,
                )
            },
            Err(message) => match submission_refusal(*form, remote) {
                Some(refusal) => message@ == refusal,
                None => account_refusal(list@, form.account) == Some(message@),
            },
        },
{
    let host = text::trim(form.host.as_str());
    if host.as_str().unicode_len() == 0 {
        return Err("un serveur d'envoi, au minimum".to_owned());
    }
    let security = match Security::parse(form.security.as_str()) {
        Some(security) => security,
        None => {
            let mut message = "chiffrement `".to_owned();
            message.append(form.security.as_str());
            message.append("` : attendu tls ou starttls");
            return Err(message);
        },
    };
    let port = match accounts::choose_port(form.port.as_str(), security.submission_port()) {
        Ok(port) => port,
        Err(given) => {
            let mut message = "port `".to_owned();
            message.append(given.as_str());
            message.append("` : attendu un nombre");
            return Err(message);
        },
    };
    if remote {
        return Err(remote_refusal_text().to_owned());
    }
    let k = match writable_account(list, form.account) {
        Ok(k) => k,
        Err(message) => {
            return Err(message);
        },
    };
    match &list[k].server {
        Some(reading) => Ok(
            Server { host, port, username: reading.username.clone(), auth: reading.auth, security },
        ),
        None => Err(String::new()),
    }
}

/// What the page says of a submission server that was written.
pub fn submission_text(account: i64, server: &Server) -> (r: String)
    ensures
        r@ == "Compte #"@ + text::signed_dec(account as int) + " : envoi par "@ + server.host@
            + ":"@ + text::dec(server.port as nat) + " "@ + server.security.word()
            + ". Rien n'a été envoyé."@,
{
    let mut out = "Compte #".to_owned();
    out.append(text::decimal_signed(account).as_str());
    out.append(" : envoi par ");
    out.append(server.host.as_str());
    out.append(":");
    out.append(text::decimal(server.port as u64).as_str());
    out.append(" ");
    out.append(server.security.as_str());
    out.append(". Rien n'a été envoyé.");
    out
}

// ---------------------------------------------------------------------------------------------
// Forgetting
// ---------------------------------------------------------------------------------------------

/// Finds the account whose secret is forgotten, or says why it cannot be: a remote service first.
pub fn forget_account(id: i64, remote: bool, list: &Vec<FullAccount>) -> (r: Result<usize, String>)
    ensures
        match r {
            Ok(k) => !remote && account_refusal(list@, id) is None && k == accounts::rank_of(
                list@,
                id,
            ) && k < list@.len() && list@[k as int].server is Some,
            Err(message) => if remote {
                message@ == remote_refusal()
            } else {
                account_refusal(list@, id) == Some(message@)
            },
        },
{
    if remote {
        return Err(remote_refusal_text().to_owned());
    }
    writable_account(list, id)
}

/// What the page says once the secret of an account is forgotten.
pub fn forgotten_text(id: i64, auth: AuthKind) -> (r: String)
    ensures
        ({
            let said = "Compte #"@ + text::signed_dec(id as int)
                + " : secret oublié, synchronisation en pause. Le courrier déjà téléchargé reste."@;
            r@ == match auth {
                AuthKind::Password => said,
                AuthKind::OAuth2 => said
                    + " Le jeton reste valide chez le fournisseur : le révoquer se fait dans son écran de sécurité."@,
            }
        }),
{
    let mut said = "Compte #".to_owned();
    said.append(text::decimal_signed(id).as_str());
    said.append(" : secret oublié, synchronisation en pause. Le courrier déjà téléchargé reste.");
    match auth {
        AuthKind::OAuth2 => {
            said.append(
                " Le jeton reste valide chez le fournisseur : le révoquer se fait dans son écran de sécurité.",
            );
        },
        AuthKind::Password => {},
    }
    said
}

// ---------------------------------------------------------------------------------------------
// What the page sees of an account
// ---------------------------------------------------------------------------------------------

/// Whether a detail is that of an account, where `secret` says whether the keyring has what its
/// server asks for.
pub open spec fn details(account: FullAccount, secret: bool, detail: AccountDetail) -> bool {
    &&& detail.id == account.id
    &&& detail.name@ == account.display_name@
    &&& match account.server {
        Some(server) => {
            &&& detail.server@ == server.host@ + ":"@ + text::dec(server.port as nat)
            &&& detail.username@ == server.username@
            &&& detail.security@ == server.security.word()
            &&& detail.auth@ == server.auth.word()
            &&& detail.secret == secret
        },
        None => {
            &&& detail.server@ == "aucun serveur (compte importé)"@
            &&& detail.username@ == ""@
            &&& detail.security@ == ""@
            &&& detail.auth@ == ""@
            &&& !detail.secret
        },
    }
    &&& text::opt_text(detail.submission) == match account.submission {
        Some(server) => Some(
            server.host@ + ":"@ + text::dec(server.port as nat) + " "@ + server.security.word(),
        ),
        None => None,
    }
    &&& detail.enabled == account.enabled
}

/// A server, as `host:port`.
pub fn address(server: &Server) -> (r: String)
    ensures
        r@ == server.host@ + ":"@ + text::dec(server.port as nat),
{
    let mut out = server.host.clone();
    out.append(":");
    out.append(text::decimal(server.port as u64).as_str());
    out
}

/// What the page sees of an account.
pub fn account_detail(account: &FullAccount, secret: bool) -> (r: AccountDetail)
    ensures
        details(*account, secret, r),
{
    let submission = match &account.submission {
        Some(server) => {
            let mut out = address(server);
            out.append(" ");
            out.append(server.security.as_str());
            Some(out)
        },
        None => None,
    };
    match &account.server {
        Some(server) => AccountDetail {
            id: account.id,
            name: account.display_name.clone(),
            server: address(server),
            username: server.username.clone(),
            security: server.security.as_str().to_owned(),
            auth: server.auth.as_str().to_owned(),
            secret,
            submission,
            enabled: account.enabled,
        },
        None => AccountDetail {
            id: account.id,
            name: account.display_name.clone(),
            server: "aucun serveur (compte importé)".to_owned(),
            username: "".to_owned(),
            security: "".to_owned(),
            auth: "".to_owned(),
            secret: false,
            submission,
            enabled: account.enabled,
        },
    }
}

// ---------------------------------------------------------------------------------------------
// Consenting
// ---------------------------------------------------------------------------------------------

/// What a consent is asked with.
pub struct ConsentRequest {
    pub host: String,
    pub username: String,
    pub client_id: String,
    /// None where the provider asks for none: an empty one would have the exchange refused.
    pub client_secret: Option<String>,
    pub redirect_port: Option<u16>,
}

/// What a consent form asks with: its fields, trimmed; a blank client secret is none, and so is a
/// redirection port that is no port.
pub fn consent_request(form: &ConsentForm) -> (r: ConsentRequest)
    ensures
        r.host@ == text::trimmed(form.host@),
        r.username@ == text::trimmed(form.username@),
        r.client_id@ == text::trimmed(form.client_id@),
        text::opt_text(r.client_secret) == if text::trimmed(form.client_secret@).len() == 0 {
            None
        } else {
            Some(text::trimmed(form.client_secret@))
        },
        r.redirect_port == accounts::port_of(text::trimmed(form.redirect_port@)),
{
    let secret = text::trim(form.client_secret.as_str());
    let client_secret = if secret.as_str().unicode_len() == 0 {
        None
    } else {
        Some(secret)
    };
    ConsentRequest {
        host: text::trim(form.host.as_str()),
        username: text::trim(form.username.as_str()),
        client_id: text::trim(form.client_id.as_str()),
        client_secret,
        redirect_port: accounts::parse_port(text::trim(form.redirect_port.as_str()).as_str()),
    }
}

/// What a consent came to.
pub enum ConsentEnd {
    /// No provider is known for the host.
    NoProvider,
    /// The provider refused, or the wait expired, with these words.
    Refused(String),
    /// The tokens could not be put in the keyring, with these words.
    NotStored(String),
    Stored,
}

/// What is said of how a consent ended.
pub open spec fn consent_words(host: Seq<char>, username: Seq<char>, end: ConsentEnd) -> Seq<char> {
    match end {
        ConsentEnd::NoProvider => "aucun fournisseur OAuth2 connu pour "@ + host
            + ". Utiliser un mot de passe applicatif avec le mécanisme `password`."@,
        ConsentEnd::Refused(words) => words@,
        ConsentEnd::NotStored(words) => "trousseau : "@ + words@,
        ConsentEnd::Stored => "Jeton obtenu pour "@ + username
            + " et rangé dans le trousseau. Déclarez le compte : le formulaire le réadoptera sans rien redemander."@,
    }
}

/// What is said of how a consent ended: a sentence, or a refusal.
pub fn consent_said(host: &str, username: &str, end: ConsentEnd) -> (r: Result<String, String>)
    ensures
        match r {
            Ok(said) => end is Stored && said@ == consent_words(host@, username@, end),
            Err(message) => !(end is Stored) && message@ == consent_words(host@, username@, end),
        },
{
    match end {
        ConsentEnd::NoProvider => {
            let mut out = "aucun fournisseur OAuth2 connu pour ".to_owned();
            out.append(host);
            out.append(". Utiliser un mot de passe applicatif avec le mécanisme `password`.");
            Err(out)
        },
        ConsentEnd::Refused(words) => Err(words),
        ConsentEnd::NotStored(words) => {
            let mut out = "trousseau : ".to_owned();
            out.append(words.as_str());
            Err(out)
        },
        ConsentEnd::Stored => {
            let mut out = "Jeton obtenu pour ".to_owned();
            out.append(username);
            out.append(
                " et rangé dans le trousseau. Déclarez le compte : le formulaire le réadoptera sans rien redemander.",
            );
            Ok(out)
        },
    }
}

/// A remote service writes no account: every form and every forgetting is refused.
pub proof fn a_remote_service_gets_no_account_written(
    form: AccountForm,
    submission: SubmissionForm,
)
    ensures
        declaration_refusal(form, true) is Some,
        submission_refusal(submission, true) is Some,
{
}

} // verus!
