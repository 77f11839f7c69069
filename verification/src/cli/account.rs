//! The accounts on the command line: declaring one, listing them, where they send, forgetting.
//!
//! The functions here decide and write; they neither read a store nor touch a keyring.
use crate::accounts;
use crate::accounts::{AccountKind, AuthKind, FullAccount, Security, Server};
use crate::text;
use vstd::prelude::*;
use vstd::string::*;

verus! {

// ---------------------------------------------------------------------------------------------
// Declaring
// ---------------------------------------------------------------------------------------------

/// What the command line says of an account to declare.
#[derive(Debug, Clone, Copy)]
pub struct Declaration<'a> {
    pub host: &'a str,
    /// The port, or the one of the encryption.
    pub port: Option<u16>,
    pub username: &'a str,
    /// `tls` or `starttls`, as typed.
    pub security: &'a str,
    /// `password` or `oauth2`, as typed.
    pub auth: &'a str,
    /// The OAuth2 client.
    pub client_id: Option<&'a str>,
    /// The port that the browser comes back to.
    pub redirect_port: Option<u16>,
    /// Replace the secret that is stored instead of using it again.
    pub renew: bool,
}

/// Why a declaration is refused, where it is.
pub open spec fn declaration_refusal(it: Declaration) -> Option<Seq<char>> {
    if accounts::security_of(it.security@) is None {
        Some("mode de chiffrement `"@ + it.security@ + "` : attendu `tls` ou `starttls`"@)
    } else if accounts::auth_of(it.auth@) is None {
        Some("mécanisme `"@ + it.auth@ + "` : attendu `password` ou `oauth2`"@)
    } else {
        None
    }
}

/// Whether a server is the one that a declaration describes: the port follows the encryption
/// unless it is given.
pub open spec fn declares(it: Declaration, server: Server) -> bool {
    &&& server.host@ == it.host@
    &&& server.username@ == it.username@
    &&& accounts::security_of(it.security@) == Some(server.security)
    &&& accounts::auth_of(it.auth@) == Some(server.auth)
    &&& server.port == match it.port {
        Some(port) => port,
        None => server.security.reading_port(),
    }
}

/// The server that a declaration describes, or why there is none.
pub fn declared(it: Declaration) -> (r: Result<Server, String>)
    ensures
        match r {
            Ok(server) => declaration_refusal(it) is None && declares(it, server),
            Err(message) => declaration_refusal(it) == Some(message@),
        },
{
    let security = match Security::parse(it.security) {
        Some(security) => security,
        None => {
            let mut message = "mode de chiffrement `".to_owned();
            message.append(it.security);
            message.append("` : attendu `tls` ou `starttls`");
            return Err(message);
        },
    };
    let auth = match AuthKind::parse(it.auth) {
        Some(auth) => auth,
        None => {
            let mut message = "mécanisme `".to_owned();
            message.append(it.auth);
            message.append("` : attendu `password` ou `oauth2`");
            return Err(message);
        },
    };
    let port: u16 = match it.port {
        Some(port) => port,
        None => security.default_port(),
    };
    Ok(Server { host: it.host.to_owned(), port, username: it.username.to_owned(), auth, security })
}

/// Where the secret of a declared account comes from.
#[derive(Debug, Clone, Copy, PartialEq, Eq, Structural)]
pub enum Secret {
    /// It is in the keyring already, and is used again.
    Held,
    /// It is asked for.
    Asked,
    /// A person goes through a browser.
    Consented,
}

/// Where the secret comes from: what is held is used again unless it is to be replaced.
pub fn secret(auth: AuthKind, held: bool, renew: bool) -> (r: Secret)
    ensures
        r == if held && !renew {
            Secret::Held
        } else if auth == AuthKind::Password {
            Secret::Asked
        } else {
            Secret::Consented
        },
{
    if held && !renew {
        Secret::Held
    } else {
        match auth {
            AuthKind::Password => Secret::Asked,
            AuthKind::OAuth2 => Secret::Consented,
        }
    }
}

/// Why a secret is refused, where it is.
pub fn secret_refusal(secret: &str) -> (r: Option<&'static str>)
    ensures
        text::opt_str(r) == if secret@.len() == 0 {
            Some("secret vide : rien n'a été enregistré"@)
        } else {
            None
        },
{
    if secret.unicode_len() == 0 {
        Some("secret vide : rien n'a été enregistré")
    } else {
        None
    }
}

/// A secret as it was read: without the blanks around it and, where it comes from a file, without
/// the mark that some editors put at its beginning.
pub open spec fn cleaned(line: Seq<char>, terminal: bool) -> Seq<char> {
    if !terminal && line.len() > 0 && line[0] == '\u{feff}' {
        text::trimmed(line.skip(1))
    } else {
        text::trimmed(line)
    }
}

/// A secret as it was read, cleaned.
pub fn clean_secret(line: &str, terminal: bool) -> (r: String)
    ensures
        r@ == cleaned(line@, terminal),
{
    let v = text::chars_of(line);
    if !terminal && v.len() > 0 && v[0] == '\u{feff}' {
        let n: usize = v.len();
        let rest = text::text_of(&v, 1, n);
        assert(rest@ == line@.skip(1));
        text::trim(rest.as_str())
    } else {
        text::trim(line)
    }
}

/// A client secret as it was read: none where the line is blank.
pub fn clean_client_secret(line: &str, terminal: bool) -> (r: Option<String>)
    ensures
        text::opt_text(r) == if cleaned(line@, terminal).len() == 0 {
            None
        } else {
            Some(cleaned(line@, terminal))
        },
{
    let secret = clean_secret(line, terminal);
    if secret.as_str().unicode_len() == 0 {
        None
    } else {
        Some(secret)
    }
}

/// A mark at the beginning of a file never becomes part of a secret, and neither do blanks.
pub proof fn a_secret_from_a_file_has_no_mark(line: Seq<char>)
    requires
        line.len() == 0 || line[0] != '\u{feff}',
    ensures
        cleaned(seq!['\u{feff}'] + line, false) == cleaned(line, false),
{
    assert((seq!['\u{feff}'] + line).skip(1) == line);
}

/// What is said of a secret that is used again.
pub fn held_lines(username: &str) -> (r: Vec<String>)
    ensures
        text::texts(r@) == seq![
            "Secret déjà dans le trousseau pour "@ + username@ + " : réutilisé tel quel."@,
            "  `--renew` pour le remplacer."@,
            ""@,
        ],
{
    let mut out: Vec<String> = Vec::new();
    let mut line0 = "Secret déjà dans le trousseau pour ".to_owned();
    line0.append(username);
    line0.append(" : réutilisé tel quel.");
    out.push(line0);
    out.push("  `--renew` pour le remplacer.".to_owned());
    out.push("".to_owned());
    assert(text::texts(out@) =~= seq![
            "Secret déjà dans le trousseau pour "@ + username@ + " : réutilisé tel quel."@,
            "  `--renew` pour le remplacer."@,
            ""@,
        ]);
    out
}

/// What is said of an account that was declared.
pub fn added_lines(id: i64, server: &Server) -> (r: Vec<String>)
    ensures
        text::texts(r@) == seq![
            "Compte "@ + server.username@ + " enregistré (#"@ + text::signed_dec(id as int) + ")."@,
            "  Serveur   "@ + server.host@ + ":"@ + text::dec(server.port as nat),
            "  Chiffrage "@ + server.security.word(),
            "  Auth      "@ + server.auth.word(),
            "  Secret    dans le trousseau du système"@,
            ""@,
            "Prochaine étape : `mail sync` pour découvrir les dossiers et moissonner."@,
        ],
{
    let mut out: Vec<String> = Vec::new();
    let mut line0 = "Compte ".to_owned();
    line0.append(server.username.as_str());
    line0.append(" enregistré (#");
    line0.append(text::decimal_signed(id).as_str());
    line0.append(").");
    out.push(line0);
    let mut line1 = "  Serveur   ".to_owned();
    line1.append(server.host.as_str());
    line1.append(":");
    line1.append(text::decimal(server.port as u64).as_str());
    out.push(line1);
    let mut line2 = "  Chiffrage ".to_owned();
    line2.append(server.security.as_str());
    out.push(line2);
    let mut line3 = "  Auth      ".to_owned();
    line3.append(server.auth.as_str());
    out.push(line3);
    out.push("  Secret    dans le trousseau du système".to_owned());
    out.push("".to_owned());
    out.push("Prochaine étape : `mail sync` pour découvrir les dossiers et moissonner.".to_owned());
    assert(text::texts(out@) =~= seq![
            "Compte "@ + server.username@ + " enregistré (#"@ + text::signed_dec(id as int) + ")."@,
            "  Serveur   "@ + server.host@ + ":"@ + text::dec(server.port as nat),
            "  Chiffrage "@ + server.security.word(),
            "  Auth      "@ + server.auth.word(),
            "  Secret    dans le trousseau du système"@,
            ""@,
            "Prochaine étape : `mail sync` pour découvrir les dossiers et moissonner."@,
        ]);
    out
}

// ---------------------------------------------------------------------------------------------
// Consent
// ---------------------------------------------------------------------------------------------

/// How to obtain an OAuth2 client.
pub open spec fn client_help() -> Seq<char> {
    "`--auth oauth2` demande `--client-id`.\nLe fournisseur ne délivre de jeton qu'à une application déclarée, et celle-ci est la vôtre :\n\n  Google\n    1. console.cloud.google.com → créer un projet\n    2. API et services → Bibliothèque → activer l'API Gmail\n    3. Écran de consentement OAuth → externe → ajouter votre adresse dans\n       « utilisateurs de test »\n    4. Identifiants → Créer → ID client OAuth → type « Application de bureau »\n    5. Reprendre l'ID client ici, et le secret client à l'invite suivante\n\n  Microsoft\n    1. entra.microsoft.com → Inscriptions d'applications → Nouvelle inscription\n    2. Type « client public », redirection « http://127.0.0.1 »\n    3. Autorisations d'API → IMAP.AccessAsUser.All et offline_access\n    4. Reprendre l'ID d'application ici ; laisser le secret client vide\n\nL'ID client n'est pas un secret : il apparaît dans l'URL de consentement."@
}

/// The OAuth2 client that was given, or how to obtain one.
pub fn client(client_id: Option<&str>) -> (r: Result<String, String>)
    ensures
        match r {
            Ok(id) => client_id matches Some(given) && id@ == text::trimmed(given@) && id@.len() > 0,
            Err(message) => message@ == client_help() && (client_id matches Some(given)
                ==> text::trimmed(given@).len() == 0),
        },
{
    match client_id {
        Some(given) => {
            let id = text::trim(given);
            if id.as_str().unicode_len() > 0 {
                return Ok(id);
            }
        },
        None => {},
    }
    Err(
        "`--auth oauth2` demande `--client-id`.\nLe fournisseur ne délivre de jeton qu'à une application déclarée, et celle-ci est la vôtre :\n\n  Google\n    1. console.cloud.google.com → créer un projet\n    2. API et services → Bibliothèque → activer l'API Gmail\n    3. Écran de consentement OAuth → externe → ajouter votre adresse dans\n       « utilisateurs de test »\n    4. Identifiants → Créer → ID client OAuth → type « Application de bureau »\n    5. Reprendre l'ID client ici, et le secret client à l'invite suivante\n\n  Microsoft\n    1. entra.microsoft.com → Inscriptions d'applications → Nouvelle inscription\n    2. Type « client public », redirection « http://127.0.0.1 »\n    3. Autorisations d'API → IMAP.AccessAsUser.All et offline_access\n    4. Reprendre l'ID d'application ici ; laisser le secret client vide\n\nL'ID client n'est pas un secret : il apparaît dans l'URL de consentement.".to_owned(),
    )
}

/// What is said of a host that no provider of tokens is known for.
pub fn unknown_provider(host: &str) -> (r: String)
    ensures
        r@ == "aucun fournisseur OAuth2 connu pour "@ + host@ + ". Le point de terminaison de jeton n'est pas configurable : le rendre configurable serait le moyen le plus simple de faire envoyer un jeton de rafraîchissement ailleurs. Utiliser `--auth password` avec un mot de passe applicatif."@,
{
    let mut out = "aucun fournisseur OAuth2 connu pour ".to_owned();
    out.append(host);
    out.append(". Le point de terminaison de jeton n'est pas configurable : le rendre configurable serait le moyen le plus simple de faire envoyer un jeton de rafraîchissement ailleurs. Utiliser `--auth password` avec un mot de passe applicatif.");
    out
}

/// What is said while a browser is waited for: the address is shown, in case none opens.
pub fn consent_lines(username: &str, url: &str) -> (r: Vec<String>)
    ensures
        text::texts(r@) == seq![
            ""@,
            "Ouverture du navigateur pour autoriser "@ + username@ + "."@,
            "Si rien ne s'ouvre, coller cette adresse :"@,
            ""@,
            url@,
            ""@,
            "En attente du retour du navigateur…"@,
        ],
{
    let mut out: Vec<String> = Vec::new();
    out.push("".to_owned());
    let mut line1 = "Ouverture du navigateur pour autoriser ".to_owned();
    line1.append(username);
    line1.append(".");
    out.push(line1);
    out.push("Si rien ne s'ouvre, coller cette adresse :".to_owned());
    out.push("".to_owned());
    out.push(url.to_owned());
    out.push("".to_owned());
    out.push("En attente du retour du navigateur…".to_owned());
    assert(text::texts(out@) =~= seq![
            ""@,
            "Ouverture du navigateur pour autoriser "@ + username@ + "."@,
            "Si rien ne s'ouvre, coller cette adresse :"@,
            ""@,
            url@,
            ""@,
            "En attente du retour du navigateur…"@,
        ]);
    out
}

// ---------------------------------------------------------------------------------------------
// Listing
// ---------------------------------------------------------------------------------------------

/// What is said of an account that reads from a server.
pub open spec fn reading_line(account: FullAccount, server: Server, stored: bool) -> Seq<char> {
    "#"@ + text::signed_dec(account.id as int) + " "@ + account.display_name@ + " — imap "@
        + server.host@ + ":"@ + text::dec(server.port as nat) + " "@ + server.security.word() + " "@
        + server.auth.word() + " ["@ + (if account.enabled {
        "actif"@
    } else {
        "en pause"@
    }) + "], secret "@ + (if stored {
        "présent"@
    } else {
        "ABSENT — `mail account add` pour le poser"@
    })
}

/// What is said of where an account sends: that it cannot, too.
pub open spec fn sending_line(account: FullAccount, server: Server) -> Seq<char> {
    match account.submission {
        Some(smtp) => "    envoi  smtp "@ + smtp.host@ + ":"@ + text::dec(smtp.port as nat) + " "@
            + smtp.security.word() + " "@ + smtp.auth.word() + (if smtp.username@
            == server.username@ {
            ""@
        } else {
            " (identifiant "@ + smtp.username@ + ")"@
        }),
        None => "    envoi  non configuré — `mail account submission --account "@
            + text::signed_dec(account.id as int) + " --host "@ + accounts::suggestion(server.host@)
            + "` (hôte à vérifier chez le fournisseur)"@,
    }
}

/// What is said of an account. Of a secret, only whether there is one.
pub open spec fn account_lines(account: FullAccount, stored: bool) -> Seq<Seq<char>> {
    match account.server {
        Some(server) if account.kind == AccountKind::Imap => seq![
            reading_line(account, server, stored),
            sending_line(account, server),
        ],
        _ => seq![
            "#"@ + text::signed_dec(account.id as int) + " "@ + account.display_name@
                + " — importé d'un mbox, pas de serveur"@,
        ],
    }
}

/// What is said of the first `n` accounts.
pub open spec fn listed(accounts: Seq<(FullAccount, bool)>, n: int) -> Seq<Seq<char>>
    decreases n,
{
    if n <= 0 {
        seq![]
    } else {
        listed(accounts, n - 1) + account_lines(accounts[n - 1].0, accounts[n - 1].1)
    }
}

fn reading(account: &FullAccount, server: &Server, stored: bool) -> (r: String)
    ensures
        r@ == reading_line(*account, *server, stored),
{
    let mut out = "#".to_owned();
    out.append(text::decimal_signed(account.id).as_str());
    out.append(" ");
    out.append(account.display_name.as_str());
    out.append(" — imap ");
    out.append(server.host.as_str());
    out.append(":");
    out.append(text::decimal(server.port as u64).as_str());
    out.append(" ");
    out.append(server.security.as_str());
    out.append(" ");
    out.append(server.auth.as_str());
    out.append(" [");
    out.append(
        if account.enabled {
            "actif"
        } else {
            "en pause"
        },
    );
    out.append("], secret ");
    out.append(
        if stored {
            "présent"
        } else {
            "ABSENT — `mail account add` pour le poser"
        },
    );
    out
}

fn sending(account: &FullAccount, server: &Server) -> (r: String)
    ensures
        r@ == sending_line(*account, *server),
{
    match &account.submission {
        Some(smtp) => {
            let mut out = "    envoi  smtp ".to_owned();
            out.append(smtp.host.as_str());
            out.append(":");
            out.append(text::decimal(smtp.port as u64).as_str());
            out.append(" ");
            out.append(smtp.security.as_str());
            out.append(" ");
            out.append(smtp.auth.as_str());
            if text::same(smtp.username.as_str(), server.username.as_str()) {
                out.append("");
            } else {
                let mut other = " (identifiant ".to_owned();
                other.append(smtp.username.as_str());
                other.append(")");
                out.append(other.as_str());
            }
            out
        },
        None => {
            let mut out = "    envoi  non configuré — `mail account submission --account ".to_owned();
            out.append(text::decimal_signed(account.id).as_str());
            out.append(" --host ");
            out.append(accounts::suggest_submission(server.host.as_str()).as_str());
            out.append("` (hôte à vérifier chez le fournisseur)");
            out
        },
    }
}

/// What is said of the accounts, each with whether the keyring has its secret.
pub fn list(accounts: &Vec<(FullAccount, bool)>) -> (r: Vec<String>)
    ensures
        text::texts(r@) == if accounts@.len() == 0 {
            seq![
                "Aucun compte. `mail account add --host … --username …` pour en déclarer un."@,
            ]
        } else {
            listed(accounts@, accounts@.len() as int)
        },
{
    let mut out: Vec<String> = Vec::new();
    if accounts.len() == 0 {
        out.push(
            "Aucun compte. `mail account add --host … --username …` pour en déclarer un.".to_owned(),
        );
        assert(text::texts(out@) =~= seq![
            "Aucun compte. `mail account add --host … --username …` pour en déclarer un."@,
        ]);
        return out;
    }
    let mut i: usize = 0;
    assert(text::texts(out@) =~= listed(accounts@, 0));
    while i < accounts.len()
        invariant
            i <= accounts.len(),
            text::texts(out@) == listed(accounts@, i as int),
        decreases accounts.len() - i,
    {
        let account = &accounts[i].0;
        let ghost before = out@;
        let imap = match account.kind {
            AccountKind::Imap => true,
            AccountKind::Imported => false,
        };
        let mut plain = true;
        match &account.server {
            Some(server) => {
                if imap {
                    plain = false;
                    out.push(reading(account, server, accounts[i].1));
                    out.push(sending(account, server));
                }
            },
            None => {},
        }
        if plain {
            let mut line = "#".to_owned();
            line.append(text::decimal_signed(account.id).as_str());
            line.append(" ");
            line.append(account.display_name.as_str());
            line.append(" — importé d'un mbox, pas de serveur");
            out.push(line);
        }
        assert(text::texts(out@) =~= text::texts(before) + account_lines(
            accounts@[i as int].0,
            accounts@[i as int].1,
        ));
        i = i + 1;
    }
    out
}

// ---------------------------------------------------------------------------------------------
// Where an account sends
// ---------------------------------------------------------------------------------------------

/// What the command line says of where an account sends.
#[derive(Debug, Clone, Copy)]
pub struct Submission<'a> {
    pub host: Option<&'a str>,
    /// The port, or the one of the encryption.
    pub port: Option<u16>,
    /// `tls` or `starttls`.
    pub security: &'a str,
    /// The identifier, where it is not that of reading.
    pub username: Option<&'a str>,
    /// The mechanism, where it is not that of reading.
    pub auth: Option<&'a str>,
    /// Clear the configuration.
    pub clear: bool,
}

/// What becomes of where an account sends.
pub enum SubmissionPlan {
    Clear,
    Write(Server),
}

/// The account that is meant, or why there is none.
pub open spec fn account_refusal(list: Seq<FullAccount>, id: i64, purpose: Seq<char>) -> Option<
    Seq<char>,
> {
    let k = accounts::rank_of(list, id);
    if k >= list.len() {
        Some("aucun compte #"@ + text::signed_dec(id as int) + " — voir `mail account list`"@)
    } else if list[k].server is None {
        Some("le compte #"@ + text::signed_dec(id as int) + purpose)
    } else {
        None
    }
}

fn account(list: &Vec<FullAccount>, id: i64, purpose: &str) -> (r: Result<usize, String>)
    ensures
        match r {
            Ok(k) => account_refusal(list@, id, purpose@) is None && k == accounts::rank_of(
                list@,
                id,
            ) && k < list@.len() && list@[k as int].server is Some,
            Err(message) => account_refusal(list@, id, purpose@) == Some(message@),
        },
{
    match accounts::find(list, id) {
        Some(k) => {
            if list[k].server.is_none() {
                let mut message = "le compte #".to_owned();
                message.append(text::decimal_signed(id).as_str());
                message.append(purpose);
                return Err(message);
            }
            Ok(k)
        },
        None => {
            let mut message = "aucun compte #".to_owned();
            message.append(text::decimal_signed(id).as_str());
            message.append(" — voir `mail account list`");
            Err(message)
        },
    }
}

/// Why a change of where an account sends is refused, where it is.
pub open spec fn submission_refusal(list: Seq<FullAccount>, id: i64, wanted: Submission) -> Option<
    Seq<char>,
> {
    match account_refusal(list, id, " n'a pas de serveur : il ne peut pas envoyer"@) {
        Some(message) => Some(message),
        None => if wanted.clear {
            None
        } else if wanted.host is None {
            Some("`--host` est obligatoire sans `--clear`"@)
        } else if accounts::security_of(wanted.security@) is None {
            Some("mode de chiffrement inconnu : "@ + wanted.security@)
        } else {
            match wanted.auth {
                Some(label) => if accounts::auth_of(label@) is None {
                    Some("mécanisme inconnu : "@ + label@)
                } else {
                    None
                },
                None => None,
            }
        },
    }
}

/// Whether a server is the one that is wanted for sending: what is not given is that of reading,
/// but for the encryption, which is never guessed.
pub open spec fn submits(wanted: Submission, reading: Server, server: Server) -> bool {
    &&& wanted.host matches Some(host) && server.host@ == host@
    &&& accounts::security_of(wanted.security@) == Some(server.security)
    &&& server.port == match wanted.port {
        Some(port) => port,
        None => server.security.sending_port(),
    }
    &&& server.username@ == match wanted.username {
        Some(username) => username@,
        None => reading.username@,
    }
    &&& match wanted.auth {
        Some(label) => accounts::auth_of(label@) == Some(server.auth),
        None => server.auth == reading.auth,
    }
}

/// What becomes of where an account sends, or why nothing does.
pub fn submission(list: &Vec<FullAccount>, id: i64, wanted: Submission) -> (r: Result<
    SubmissionPlan,
    String,
>)
    ensures
        match r {
            Ok(plan) => submission_refusal(list@, id, wanted) is None && match plan {
                SubmissionPlan::Clear => wanted.clear,
                SubmissionPlan::Write(server) => !wanted.clear && submits(
                    wanted,
                    list@[accounts::rank_of(list@, id)].server->0,
                    server,
                ),
            },
            Err(message) => submission_refusal(list@, id, wanted) == Some(message@),
        },
{
    let k: usize = match account(list, id, " n'a pas de serveur : il ne peut pas envoyer") {
        Ok(k) => k,
        Err(message) => {
            return Err(message);
        },
    };
    if wanted.clear {
        return Ok(SubmissionPlan::Clear);
    }
    let host = match wanted.host {
        Some(host) => host,
        None => {
            return Err("`--host` est obligatoire sans `--clear`".to_owned());
        },
    };
    let security = match Security::parse(wanted.security) {
        Some(security) => security,
        None => {
            let mut message = "mode de chiffrement inconnu : ".to_owned();
            message.append(wanted.security);
            return Err(message);
        },
    };
    match &list[k].server {
        Some(reading) => {
            let auth = match wanted.auth {
                Some(label) => match AuthKind::parse(label) {
                    Some(auth) => auth,
                    None => {
                        let mut message = "mécanisme inconnu : ".to_owned();
                        message.append(label);
                        return Err(message);
                    },
                },
                None => reading.auth,
            };
            let port: u16 = match wanted.port {
                Some(port) => port,
                None => security.submission_port(),
            };
            let username = match wanted.username {
                Some(username) => username.to_owned(),
                None => reading.username.clone(),
            };
            Ok(
                SubmissionPlan::Write(
                    Server { host: host.to_owned(), port, username, auth, security },
                ),
            )
        },
        None => Ok(SubmissionPlan::Clear),
    }
}

/// What is said of where an account sends.
pub open spec fn submission_said(id: i64, reading: Seq<char>, server: Server) -> Seq<Seq<char>> {
    let first = "Compte #"@ + text::signed_dec(id as int) + " : envoi par smtp "@ + server.host@
        + ":"@ + text::dec(server.port as nat) + " "@ + server.security.word() + " "@
        + server.auth.word() + "."@;
    let last = seq![
        ""@,
        "Le secret est celui de la lecture, déjà dans le trousseau. Rien n'a été envoyé : `mail send --help` pour le premier essai."@,
    ];
    if server.username@ == reading {
        seq![first] + last
    } else {
        seq![first, "Identifiant d'envoi : "@ + server.username@] + last
    }
}

/// What is said of where an account sends; `reading` is the identifier it reads with.
pub fn submission_lines(id: i64, reading: &str, server: &Server) -> (r: Vec<String>)
    ensures
        text::texts(r@) == submission_said(id, reading@, *server),
{
    let mut first = "Compte #".to_owned();
    first.append(text::decimal_signed(id).as_str());
    first.append(" : envoi par smtp ");
    first.append(server.host.as_str());
    first.append(":");
    first.append(text::decimal(server.port as u64).as_str());
    first.append(" ");
    first.append(server.security.as_str());
    first.append(" ");
    first.append(server.auth.as_str());
    first.append(".");
    let mut out: Vec<String> = Vec::new();
    out.push(first);
    if !text::same(server.username.as_str(), reading) {
        let mut line = "Identifiant d'envoi : ".to_owned();
        line.append(server.username.as_str());
        out.push(line);
    }
    out.push("".to_owned());
    out.push(
        "Le secret est celui de la lecture, déjà dans le trousseau. Rien n'a été envoyé : `mail send --help` pour le premier essai.".to_owned(),
    );
    assert(text::texts(out@) =~= submission_said(id, reading@, *server));
    out
}

/// What is said of an account that no longer sends.
pub fn cleared_line(id: i64) -> (r: String)
    ensures
        r@ == "Le compte #"@ + text::signed_dec(id as int) + " n'a plus de serveur d'envoi."@,
{
    let mut out = "Le compte #".to_owned();
    out.append(text::decimal_signed(id).as_str());
    out.append(" n'a plus de serveur d'envoi.");
    out
}

// ---------------------------------------------------------------------------------------------
// Forgetting
// ---------------------------------------------------------------------------------------------

/// The rank of the account to forget, or why there is none.
pub fn forget(list: &Vec<FullAccount>, id: i64) -> (r: Result<usize, String>)
    ensures
        match r {
            Ok(k) => account_refusal(list@, id, " n'a pas de serveur"@) is None && k
                == accounts::rank_of(list@, id) && k < list@.len() && list@[k as int].server is Some,
            Err(message) => account_refusal(list@, id, " n'a pas de serveur"@) == Some(message@),
        },
{
    account(list, id, " n'a pas de serveur")
}

/// What is said of an account that was forgotten: a token stays good where it was given out.
pub open spec fn forgotten(id: i64, auth: AuthKind) -> Seq<Seq<char>> {
    let always = seq![
        "Secret oublié, synchronisation du compte #"@ + text::signed_dec(id as int) + " en pause."@,
        "Le courrier déjà téléchargé reste dans le store."@,
    ];
    if auth == AuthKind::OAuth2 {
        always + seq![
            ""@,
            "Le jeton de rafraîchissement a été effacé de cette machine, mais il reste valide chez le fournisseur."@,
            "Pour couper l'accès partout, révoquer l'application dans le compte :"@,
            "  Google    myaccount.google.com/permissions"@,
            "  Microsoft myapplications.microsoft.com"@,
        ]
    } else {
        always
    }
}

/// What is said of an account that was forgotten.
pub fn forgotten_lines(id: i64, auth: AuthKind) -> (r: Vec<String>)
    ensures
        text::texts(r@) == forgotten(id, auth),
{
    let mut first = "Secret oublié, synchronisation du compte #".to_owned();
    first.append(text::decimal_signed(id).as_str());
    first.append(" en pause.");
    let mut out: Vec<String> = Vec::new();
    out.push(first);
    out.push("Le courrier déjà téléchargé reste dans le store.".to_owned());
    match auth {
        AuthKind::OAuth2 => {
            out.push("".to_owned());
            out.push(
                "Le jeton de rafraîchissement a été effacé de cette machine, mais il reste valide chez le fournisseur.".to_owned(),
            );
            out.push(
                "Pour couper l'accès partout, révoquer l'application dans le compte :".to_owned(),
            );
            out.push("  Google    myaccount.google.com/permissions".to_owned());
            out.push("  Microsoft myapplications.microsoft.com".to_owned());
        },
        AuthKind::Password => {},
    }
    assert(text::texts(out@) =~= forgotten(id, auth));
    out
}

} // verus!
