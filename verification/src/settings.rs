//! The settings page: the accounts, and what its buttons ask for.
//!
//! The page never shows a secret: a form that holds one prints its presence alone. Drawing the
//! page decides nothing; a click does, and [`Page::click`] says what.
use crate::accounts;
use crate::text;
use vstd::prelude::*;
use vstd::string::*;

verus! {

/// What the `Debug` formatting of std makes of a text: between quotes, with escapes.
pub uninterp spec fn debug_of(s: Seq<char>) -> Seq<char>;

/// `<str as Debug>::fmt`, through `format!`: the text between double quotes, with the characters
/// escaped that std escapes. It is a function of the text alone; nothing more is claimed of it.
#[verifier::external_body]
pub(crate) fn debug(s: &str) -> (r: String)
    ensures
        r@ == debug_of(s@),
{
    format!("{:?}", s)
}

// ---------------------------------------------------------------------------------------------
// The forms
// ---------------------------------------------------------------------------------------------

/// An account, as the page shows it.
#[derive(Debug)]
pub struct AccountDetail {
    pub id: i64,
    pub name: String,
    /// The reading server, as `host:port`.
    pub server: String,
    pub username: String,
    pub security: String,
    pub auth: String,
    /// Whether the keyring holds what authenticates this account: its presence, never its value.
    pub secret: bool,
    /// The submission server, where there is one.
    pub submission: Option<String>,
    pub enabled: bool,
}

/// What the declaration form has gathered. It holds a secret, and is not printed as it stands:
/// see [`AccountForm::masked`].
pub struct AccountForm {
    pub host: String,
    /// Blank for the default of the encryption mode.
    pub port: String,
    pub username: String,
    pub security: String,
    pub auth: String,
    /// The secret, only where it has to be written.
    pub secret: String,
}

/// What the OAuth2 consent form has gathered. The client identifier is public, the client secret
/// is not printed: see [`ConsentForm::masked`].
pub struct ConsentForm {
    pub host: String,
    pub username: String,
    pub client_id: String,
    pub client_secret: String,
    pub redirect_port: String,
}

/// What the submission form has gathered. It holds no secret: sending uses that of reading.
#[derive(Debug)]
pub struct SubmissionForm {
    pub account: i64,
    pub host: String,
    pub port: String,
    pub security: String,
}

/// What is printed in the place of a secret: nothing where there is none, a mask otherwise. Not
/// even its length shows.
pub open spec fn mask(secret: Seq<char>) -> Seq<char> {
    if secret.len() == 0 {
        ""@
    } else {
        "<masqué>"@
    }
}

fn masked_secret(secret: &str) -> (r: &'static str)
    ensures
        r@ == mask(secret@),
{
    if secret.unicode_len() == 0 {
        ""
    } else {
        "<masqué>"
    }
}

impl AccountForm {
    /// An empty form, filled with the safest defaults.
    pub fn new() -> (r: AccountForm)
        ensures
            r.host@ == ""@,
            r.port@ == ""@,
            r.username@ == ""@,
            r.security@ == "tls"@,
            r.auth@ == "password"@,
            r.secret@ == ""@,
    {
        AccountForm {
            host: "".to_owned(),
            port: "".to_owned(),
            username: "".to_owned(),
            security: "tls".to_owned(),
            auth: "password".to_owned(),
            secret: "".to_owned(),
        }
    }

    /// The same form.
    pub fn copy(&self) -> (r: AccountForm)
        ensures
            r == *self,
    {
        AccountForm {
            host: self.host.clone(),
            port: self.port.clone(),
            username: self.username.clone(),
            security: self.security.clone(),
            auth: self.auth.clone(),
            secret: self.secret.clone(),
        }
    }

    /// What is printed of a form.
    pub open spec fn masked_text(self) -> Seq<char> {
        "AccountForm { host: "@ + debug_of(self.host@) + ", port: "@ + debug_of(self.port@)
            + ", username: "@ + debug_of(self.username@) + ", security: "@ + debug_of(
            self.security@,
        ) + ", auth: "@ + debug_of(self.auth@) + ", secret: "@ + debug_of(mask(self.secret@))
            + " }"@
    }

    /// The form, printed without its secret.
    pub fn masked(&self) -> (r: String)
        ensures
            r@ == self.masked_text(),
    {
        let mut out = "AccountForm { host: ".to_owned();
        out.append(debug(self.host.as_str()).as_str());
        out.append(", port: ");
        out.append(debug(self.port.as_str()).as_str());
        out.append(", username: ");
        out.append(debug(self.username.as_str()).as_str());
        out.append(", security: ");
        out.append(debug(self.security.as_str()).as_str());
        out.append(", auth: ");
        out.append(debug(self.auth.as_str()).as_str());
        out.append(", secret: ");
        out.append(debug(masked_secret(self.secret.as_str())).as_str());
        out.append(" }");
        out
    }
}

impl ConsentForm {
    /// A form for an account: only the account is filled in.
    pub fn for_account(host: String, username: String) -> (r: ConsentForm)
        ensures
            r.host == host,
            r.username == username,
            r.client_id@ == ""@,
            r.client_secret@ == ""@,
            r.redirect_port@ == ""@,
    {
        ConsentForm {
            host,
            username,
            client_id: "".to_owned(),
            client_secret: "".to_owned(),
            redirect_port: "".to_owned(),
        }
    }

    /// The same form.
    pub fn copy(&self) -> (r: ConsentForm)
        ensures
            r == *self,
    {
        ConsentForm {
            host: self.host.clone(),
            username: self.username.clone(),
            client_id: self.client_id.clone(),
            client_secret: self.client_secret.clone(),
            redirect_port: self.redirect_port.clone(),
        }
    }

    /// What is printed of a form.
    pub open spec fn masked_text(self) -> Seq<char> {
        "ConsentForm { host: "@ + debug_of(self.host@) + ", username: "@ + debug_of(self.username@)
            + ", client_id: "@ + debug_of(self.client_id@) + ", client_secret: "@ + debug_of(
            mask(self.client_secret@),
        ) + ", redirect_port: "@ + debug_of(self.redirect_port@) + " }"@
    }

    /// The form, printed without its client secret.
    pub fn masked(&self) -> (r: String)
        ensures
            r@ == self.masked_text(),
    {
        let mut out = "ConsentForm { host: ".to_owned();
        out.append(debug(self.host.as_str()).as_str());
        out.append(", username: ");
        out.append(debug(self.username.as_str()).as_str());
        out.append(", client_id: ");
        out.append(debug(self.client_id.as_str()).as_str());
        out.append(", client_secret: ");
        out.append(debug(masked_secret(self.client_secret.as_str())).as_str());
        out.append(", redirect_port: ");
        out.append(debug(self.redirect_port.as_str()).as_str());
        out.append(" }");
        out
    }
}

impl SubmissionForm {
    /// A blank form for an account. The encryption mode starts as `starttls`.
    pub fn for_account(account: i64) -> (r: SubmissionForm)
        ensures
            r.account == account,
            r.host@ == ""@,
            r.port@ == ""@,
            r.security@ == "starttls"@,
    {
        SubmissionForm {
            account,
            host: "".to_owned(),
            port: "".to_owned(),
            security: "starttls".to_owned(),
        }
    }

    /// The same form.
    pub fn copy(&self) -> (r: SubmissionForm)
        ensures
            r == *self,
    {
        SubmissionForm {
            account: self.account,
            host: self.host.clone(),
            port: self.port.clone(),
            security: self.security.clone(),
        }
    }
}

/// What is printed of a form says nothing of its secret but whether there is one: two forms that
/// differ by their secrets alone print the same.
pub proof fn a_form_never_prints_its_secret(a: AccountForm, b: AccountForm)
    requires
        a.host@ == b.host@,
        a.port@ == b.port@,
        a.username@ == b.username@,
        a.security@ == b.security@,
        a.auth@ == b.auth@,
        (a.secret@.len() == 0) == (b.secret@.len() == 0),
    ensures
        a.masked_text() == b.masked_text(),
{
}

/// The same of a consent form and its client secret.
pub proof fn a_consent_form_never_prints_its_client_secret(a: ConsentForm, b: ConsentForm)
    requires
        a.host@ == b.host@,
        a.username@ == b.username@,
        a.client_id@ == b.client_id@,
        a.redirect_port@ == b.redirect_port@,
        (a.client_secret@.len() == 0) == (b.client_secret@.len() == 0),
    ensures
        a.masked_text() == b.masked_text(),
{
}

/// The most likely submission host for a reading host, where there is a usual one.
pub fn suggested_submission(imap_host: &str) -> (r: Option<String>)
    ensures
        match r {
            Some(host) => text::starts(imap_host@, "imap."@) && host@ == "smtp."@ + imap_host@.skip(
                "imap."@.len() as int,
            ),
            None => !text::starts(imap_host@, "imap."@),
        },
{
    match text::strip_prefix(imap_host, "imap.") {
        Some(rest) => {
            let mut out = "smtp.".to_owned();
            out.append(rest.as_str());
            Some(out)
        },
        None => None,
    }
}

// ---------------------------------------------------------------------------------------------
// What the page shows of an account
// ---------------------------------------------------------------------------------------------

/// What the page shows of an account, and which of its buttons can be pressed.
#[derive(Debug)]
pub struct Card {
    pub title: String,
    pub paused: bool,
    pub line: String,
    pub secret: &'static str,
    /// The button that starts a consent, where there is one.
    pub consent: Option<&'static str>,
    pub sending: String,
    pub syncable: bool,
    /// Why the account cannot be synchronised, where it cannot.
    pub sync_refusal: &'static str,
    /// Whether what the page writes can be written.
    pub writable: bool,
    /// Whether the page asks if the secret is to be forgotten.
    pub confirming: bool,
}

/// Whether the page offers a consent for an account: an OAuth2 one, where the service is local.
pub open spec fn offers_consent(remote: bool, account: AccountDetail) -> bool {
    !remote && account.auth@ == "oauth2"@
}

/// Whether an account can be synchronised.
pub open spec fn syncable(account: AccountDetail) -> bool {
    account.secret && account.enabled
}

/// Whether a card shows an account as a page shows it.
pub open spec fn shows(
    card: Card,
    account: AccountDetail,
    remote: bool,
    forgetting: Option<i64>,
) -> bool {
    &&& card.title@ == "#"@ + text::signed_dec(account.id as int) + " "@ + account.name@
    &&& card.paused == !account.enabled
    &&& card.line@ == account.server@ + " · "@ + account.username@ + " · "@ + account.security@
        + " · "@ + account.auth@
    &&& card.secret@ == if account.secret {
        "secret dans le trousseau"@
    } else {
        "aucun secret enregistré"@
    }
    &&& match card.consent {
        Some(label) => offers_consent(remote, account) && label@ == if account.secret {
            "Refaire le consentement…"@
        } else {
            "Obtenir un jeton…"@
        },
        None => !offers_consent(remote, account),
    }
    &&& card.sending@ == match account.submission {
        Some(server) => "envoi par "@ + server@,
        None => "aucun serveur d'envoi — ce compte ne peut pas envoyer"@,
    }
    &&& card.syncable == syncable(account)
    &&& card.sync_refusal@ == if account.secret {
        "Ce compte est en pause : le redéclarer le réactive."@
    } else {
        "Aucun secret enregistré : la connexion échouerait."@
    }
    &&& card.writable == !remote
    &&& card.confirming == (forgetting == Some(account.id))
}

// ---------------------------------------------------------------------------------------------
// The page
// ---------------------------------------------------------------------------------------------

/// What the page asks for, once it is drawn.
pub enum Outcome {
    Idle,
    /// Declare an account, or declare it again.
    Declare(Box<AccountForm>),
    /// Write the submission server of an account.
    Submission(Box<SubmissionForm>),
    /// Forget the secret of an account and pause its synchronisation.
    Forget(i64),
    /// Synchronise an account.
    Sync(i64),
    /// Obtain a new OAuth2 token.
    Consent(Box<ConsentForm>),
}

/// The state of the page.
pub struct Page {
    pub accounts: Vec<AccountDetail>,
    /// The declaration form, while it is open.
    pub declaring: Option<AccountForm>,
    /// The submission form, while it is open.
    pub submitting: Option<SubmissionForm>,
    /// The consent form, while it is open.
    pub consenting: Option<ConsentForm>,
    /// The address of the consent, while one is under way.
    pub consent_url: Option<String>,
    /// The account whose forgetting waits for a confirmation.
    pub forgetting: Option<i64>,
    /// What the last writing answered.
    pub message: Option<String>,
    /// Whether the last answer was a refusal.
    pub failed: bool,
    /// Whether the service is remote: the page can then write nothing.
    pub remote: bool,
}

/// A click on the page. An account is named by its rank in the list.
#[derive(Debug, Clone, Copy, PartialEq, Eq)]
pub enum Click {
    /// Obtain a token for this account, or a new one.
    Consent(usize),
    Sync(usize),
    /// Open the submission form of this account.
    Sending(usize),
    /// Ask whether the secret of this account is to be forgotten.
    Forget(usize),
    /// Yes, forget it.
    ConfirmForget(usize),
    /// No, keep it.
    KeepSecret(usize),
    /// Open the declaration form.
    Declare,
    SaveDeclaration,
    CancelDeclaration,
    /// Take the plausible host.
    UseSuggestion,
    SaveSubmission,
    CancelSubmission,
    OpenBrowser,
    CancelConsent,
}

/// Which of the forms that are open can be saved: those that have what they need at least.
#[derive(Debug, Clone, Copy, PartialEq, Eq)]
pub struct Ready {
    pub declaration: bool,
    pub submission: bool,
    pub consent: bool,
}

/// Whether a declaration form has what it needs at least.
pub open spec fn declaration_ready(form: AccountForm) -> bool {
    text::trimmed(form.host@).len() > 0 && text::trimmed(form.username@).len() > 0
}

/// Whether a submission form has what it needs at least.
pub open spec fn submission_ready(form: SubmissionForm) -> bool {
    text::trimmed(form.host@).len() > 0
}

/// Whether a consent form has what it needs at least.
pub open spec fn consent_ready(form: ConsentForm) -> bool {
    text::trimmed(form.client_id@).len() > 0
}

/// The rank of the first account with an identifier; the length of the list where none has it.
pub open spec fn detail_rank(accounts: Seq<AccountDetail>, id: i64) -> int
    decreases accounts.len(),
{
    if accounts.len() == 0 {
        0
    } else if accounts[0].id == id {
        0
    } else {
        1 + detail_rank(accounts.drop_first(), id)
    }
}

/// The plausible submission host that the page offers, where it offers one.
pub open spec fn offered_host(page: Page) -> Option<Seq<char>> {
    match page.submitting {
        Some(form) => {
            let k = detail_rank(page.accounts@, form.account);
            if k < page.accounts@.len() && text::starts(
                accounts::host_part(page.accounts@[k].server@),
                "imap."@,
            ) {
                Some(
                    "smtp."@ + accounts::host_part(page.accounts@[k].server@).skip(
                        "imap."@.len() as int,
                    ),
                )
            } else {
                None
            }
        },
        None => None,
    }
}

/// What a click makes of the page, and what it asks for. A click on a button that cannot be
/// pressed changes nothing and asks for nothing.
pub open spec fn clicked(pre: Page, click: Click, post: Page, outcome: Outcome) -> bool {
    let n = pre.accounts@.len();
    match click {
        Click::Consent(k) => {
            &&& outcome is Idle
            &&& if k < n && offers_consent(pre.remote, pre.accounts@[k as int]) {
                &&& post == (Page { consenting: post.consenting, ..pre })
                &&& post.consenting matches Some(form) && {
                    &&& form.host@ == accounts::host_part(pre.accounts@[k as int].server@)
                    &&& form.username@ == pre.accounts@[k as int].username@
                    &&& form.client_id@ == ""@
                    &&& form.client_secret@ == ""@
                    &&& form.redirect_port@ == ""@
                }
            } else {
                post == pre
            }
        },
        Click::Sync(k) => {
            &&& post == pre
            &&& if k < n && syncable(pre.accounts@[k as int]) {
                outcome == Outcome::Sync(pre.accounts@[k as int].id)
            } else {
                outcome is Idle
            }
        },
        Click::Sending(k) => {
            &&& outcome is Idle
            &&& if k < n && !pre.remote {
                &&& post == (Page { submitting: post.submitting, ..pre })
                &&& post.submitting matches Some(form) && {
                    &&& form.account == pre.accounts@[k as int].id
                    &&& form.host@ == ""@
                    &&& form.port@ == ""@
                    &&& form.security@ == "starttls"@
                }
            } else {
                post == pre
            }
        },
        Click::Forget(k) => {
            &&& outcome is Idle
            &&& post == if k < n && !pre.remote && pre.forgetting != Some(
                pre.accounts@[k as int].id,
            ) {
                Page { forgetting: Some(pre.accounts@[k as int].id), ..pre }
            } else {
                pre
            }
        },
        Click::ConfirmForget(k) => if k < n && pre.forgetting == Some(pre.accounts@[k as int].id) {
            &&& post == (Page { forgetting: None, ..pre })
            &&& outcome == Outcome::Forget(pre.accounts@[k as int].id)
        } else {
            post == pre && outcome is Idle
        },
        Click::KeepSecret(k) => {
            &&& outcome is Idle
            &&& post == if k < n && pre.forgetting == Some(pre.accounts@[k as int].id) {
                Page { forgetting: None, ..pre }
            } else {
                pre
            }
        },
        Click::Declare => {
            &&& outcome is Idle
            &&& if pre.declaring is None && !pre.remote {
                &&& post == (Page { declaring: post.declaring, ..pre })
                &&& post.declaring matches Some(form) && {
                    &&& form.host@ == ""@
                    &&& form.port@ == ""@
                    &&& form.username@ == ""@
                    &&& form.security@ == "tls"@
                    &&& form.auth@ == "password"@
                    &&& form.secret@ == ""@
                }
            } else {
                post == pre
            }
        },
        Click::SaveDeclaration => {
            &&& post == pre
            &&& match pre.declaring {
                Some(form) => if declaration_ready(form) {
                    outcome == Outcome::Declare(Box::new(form))
                } else {
                    outcome is Idle
                },
                None => outcome is Idle,
            }
        },
        Click::CancelDeclaration => outcome is Idle && post == (Page { declaring: None, ..pre }),
        Click::UseSuggestion => {
            &&& outcome is Idle
            &&& match offered_host(pre) {
                Some(host) => {
                    &&& post == (Page { submitting: post.submitting, ..pre })
                    &&& post.submitting matches Some(form) && form == (SubmissionForm {
                        host: form.host,
                        ..pre.submitting->0
                    }) && form.host@ == host
                },
                None => post == pre,
            }
        },
        Click::SaveSubmission => {
            &&& post == pre
            &&& match pre.submitting {
                Some(form) => if submission_ready(form) {
                    outcome == Outcome::Submission(Box::new(form))
                } else {
                    outcome is Idle
                },
                None => outcome is Idle,
            }
        },
        Click::CancelSubmission => outcome is Idle && post == (Page { submitting: None, ..pre }),
        Click::OpenBrowser => {
            &&& post == pre
            &&& match pre.consenting {
                Some(form) => if pre.consent_url is None && consent_ready(form) {
                    outcome == Outcome::Consent(Box::new(form))
                } else {
                    outcome is Idle
                },
                None => outcome is Idle,
            }
        },
        Click::CancelConsent => {
            &&& outcome is Idle
            &&& post == if pre.consent_url is None {
                Page { consenting: None, ..pre }
            } else {
                pre
            }
        },
    }
}

fn filled(field: &str) -> (r: bool)
    ensures
        r == (text::trimmed(field@).len() > 0),
{
    text::trim(field).as_str().unicode_len() > 0
}

impl Page {
    /// The page, when it opens.
    pub fn opened(remote: bool) -> (r: Page)
        ensures
            r.accounts@.len() == 0,
            r.declaring is None,
            r.submitting is None,
            r.consenting is None,
            r.consent_url is None,
            r.forgetting is None,
            r.message is None,
            !r.failed,
            r.remote == remote,
    {
        Page {
            accounts: Vec::new(),
            declaring: None,
            submitting: None,
            consenting: None,
            consent_url: None,
            forgetting: None,
            message: None,
            failed: false,
            remote,
        }
    }

    /// What the page shows of its accounts, in their order.
    pub fn list(&self) -> (r: Vec<Card>)
        ensures
            r.len() == self.accounts@.len(),
            forall|i: int|
                0 <= i < r.len() ==> shows(
                    #[trigger] r@[i],
                    self.accounts@[i],
                    self.remote,
                    self.forgetting,
                ),
    {
        let mut out: Vec<Card> = Vec::new();
        let mut i: usize = 0;
        while i < self.accounts.len()
            invariant
                i <= self.accounts.len(),
                out.len() == i,
                forall|k: int|
                    0 <= k < i ==> shows(
                        #[trigger] out@[k],
                        self.accounts@[k],
                        self.remote,
                        self.forgetting,
                    ),
            decreases self.accounts.len() - i,
        {
            out.push(self.card(i));
            i = i + 1;
        }
        out
    }

    /// What the page shows of one account.
    fn card(&self, i: usize) -> (r: Card)
        requires
            i < self.accounts@.len(),
        ensures
            shows(r, self.accounts@[i as int], self.remote, self.forgetting),
    {
        let account = &self.accounts[i];
        let mut title = "#".to_owned();
        title.append(text::decimal_signed(account.id).as_str());
        title.append(" ");
        title.append(account.name.as_str());
        let mut line = account.server.clone();
        line.append(" · ");
        line.append(account.username.as_str());
        line.append(" · ");
        line.append(account.security.as_str());
        line.append(" · ");
        line.append(account.auth.as_str());
        let consent = if !self.remote && text::same(account.auth.as_str(), "oauth2") {
            if account.secret {
                Some("Refaire le consentement…")
            } else {
                Some("Obtenir un jeton…")
            }
        } else {
            None
        };
        let sending = match &account.submission {
            Some(server) => {
                let mut s = "envoi par ".to_owned();
                s.append(server.as_str());
                s
            },
            None => "aucun serveur d'envoi — ce compte ne peut pas envoyer".to_owned(),
        };
        Card {
            title,
            paused: !account.enabled,
            line,
            secret: if account.secret {
                "secret dans le trousseau"
            } else {
                "aucun secret enregistré"
            },
            consent,
            sending,
            syncable: account.secret && account.enabled,
            sync_refusal: if account.secret {
                "Ce compte est en pause : le redéclarer le réactive."
            } else {
                "Aucun secret enregistré : la connexion échouerait."
            },
            writable: !self.remote,
            confirming: match self.forgetting {
                Some(id) => id == account.id,
                None => false,
            },
        }
    }

    /// The plausible submission host that the page offers as a button, where it offers one.
    pub fn offered_submission(&self) -> (r: Option<String>)
        ensures
            text::opt_text(r) == offered_host(*self),
    {
        let form = match &self.submitting {
            Some(form) => form,
            None => {
                return None;
            },
        };
        let mut i: usize = 0;
        assert(self.accounts@.skip(0) == self.accounts@);
        while i < self.accounts.len()
            invariant
                i <= self.accounts.len(),
                detail_rank(self.accounts@, form.account) == i + detail_rank(
                    self.accounts@.skip(i as int),
                    form.account,
                ),
                self.submitting == Some(*form),
            decreases self.accounts.len() - i,
        {
            assert(self.accounts@.skip(i as int)[0] == self.accounts@[i as int]);
            if self.accounts[i].id == form.account {
                let host = accounts::server_host(self.accounts[i].server.as_str());
                return suggested_submission(host.as_str());
            }
            assert(self.accounts@.skip(i as int).drop_first() == self.accounts@.skip(i + 1));
            i = i + 1;
        }
        None
    }

    /// Which of the forms that are open can be saved.
    pub fn ready(&self) -> (r: Ready)
        ensures
            r.declaration == (self.declaring matches Some(form) && declaration_ready(form)),
            r.submission == (self.submitting matches Some(form) && submission_ready(form)),
            r.consent == (self.consenting matches Some(form) && consent_ready(form)),
    {
        Ready {
            declaration: match &self.declaring {
                Some(form) => filled(form.host.as_str()) && filled(form.username.as_str()),
                None => false,
            },
            submission: match &self.submitting {
                Some(form) => filled(form.host.as_str()),
                None => false,
            },
            consent: match &self.consenting {
                Some(form) => filled(form.client_id.as_str()),
                None => false,
            },
        }
    }

    /// Whether the confirmation of a forgetting is asked for this account.
    fn confirms(&self, k: usize) -> (r: bool)
        ensures
            r == (k < self.accounts@.len() && self.forgetting == Some(
                self.accounts@[k as int].id,
            )),
    {
        match self.forgetting {
            Some(id) => k < self.accounts.len() && id == self.accounts[k].id,
            None => false,
        }
    }

    /// Obeys a click, and says what it asks for.
    pub fn click(&mut self, click: Click) -> (outcome: Outcome)
        ensures
            clicked(*old(self), click, *final(self), outcome),
    {
        match click {
            Click::Consent(k) => {
                if k < self.accounts.len() && !self.remote && text::same(
                    self.accounts[k].auth.as_str(),
                    "oauth2",
                ) {
                    let host = accounts::server_host(self.accounts[k].server.as_str());
                    let username = self.accounts[k].username.clone();
                    self.consenting = Some(ConsentForm::for_account(host, username));
                }
                Outcome::Idle
            },
            Click::Sync(k) => {
                if k < self.accounts.len() && self.accounts[k].secret && self.accounts[k].enabled {
                    Outcome::Sync(self.accounts[k].id)
                } else {
                    Outcome::Idle
                }
            },
            Click::Sending(k) => {
                if k < self.accounts.len() && !self.remote {
                    self.submitting = Some(SubmissionForm::for_account(self.accounts[k].id));
                }
                Outcome::Idle
            },
            Click::Forget(k) => {
                if k < self.accounts.len() && !self.remote && !self.confirms(k) {
                    self.forgetting = Some(self.accounts[k].id);
                }
                Outcome::Idle
            },
            Click::ConfirmForget(k) => {
                if self.confirms(k) {
                    self.forgetting = None;
                    Outcome::Forget(self.accounts[k].id)
                } else {
                    Outcome::Idle
                }
            },
            Click::KeepSecret(k) => {
                if self.confirms(k) {
                    self.forgetting = None;
                }
                Outcome::Idle
            },
            Click::Declare => {
                if self.declaring.is_none() && !self.remote {
                    self.declaring = Some(AccountForm::new());
                }
                Outcome::Idle
            },
            Click::SaveDeclaration => match &self.declaring {
                Some(form) => if filled(form.host.as_str()) && filled(form.username.as_str()) {
                    Outcome::Declare(Box::new(form.copy()))
                } else {
                    Outcome::Idle
                },
                None => Outcome::Idle,
            },
            Click::CancelDeclaration => {
                self.declaring = None;
                Outcome::Idle
            },
            Click::UseSuggestion => {
                let offered = self.offered_submission();
                match offered {
                    Some(host) => {
                        let form = self.submitting.take().unwrap();
                        self.submitting = Some(
                            SubmissionForm {
                                account: form.account,
                                host,
                                port: form.port,
                                security: form.security,
                            },
                        );
                    },
                    None => {},
                }
                Outcome::Idle
            },
            Click::SaveSubmission => match &self.submitting {
                Some(form) => if filled(form.host.as_str()) {
                    Outcome::Submission(Box::new(form.copy()))
                } else {
                    Outcome::Idle
                },
                None => Outcome::Idle,
            },
            Click::CancelSubmission => {
                self.submitting = None;
                Outcome::Idle
            },
            Click::OpenBrowser => match &self.consenting {
                Some(form) => if self.consent_url.is_none() && filled(form.client_id.as_str()) {
                    Outcome::Consent(Box::new(form.copy()))
                } else {
                    Outcome::Idle
                },
                None => Outcome::Idle,
            },
            Click::CancelConsent => {
                if self.consent_url.is_none() {
                    self.consenting = None;
                }
                Outcome::Idle
            },
        }
    }
}

/// What an image of the page comes to: nothing without a click, else what the click comes to.
pub open spec fn shown(pre: Page, click: Option<Click>, post: Page, outcome: Outcome) -> bool {
    match click {
        Some(click) => clicked(pre, click, post, outcome),
        None => post == pre && outcome is Idle,
    }
}

impl Page {
    /// An image of the page was drawn, and this was clicked on it: what is asked for.
    pub fn show(&mut self, click: Option<Click>) -> (outcome: Outcome)
        ensures
            shown(*old(self), click, *final(self), outcome),
    {
        match click {
            Some(click) => self.click(click),
            None => Outcome::Idle,
        }
    }
}

/// A page that nobody clicked asks for nothing and stays as it is, whatever forms are open: the
/// image is drawn many times each second.
pub proof fn a_page_that_nobody_clicked_asks_for_nothing(pre: Page, post: Page, outcome: Outcome)
    requires
        shown(pre, None, post, outcome),
    ensures
        outcome is Idle,
        post == pre,
{
}

/// Nothing is written but what its own button asks for: an account, a submission server and a
/// consent as their open form says them and with what it needs at least, and a forgetting only
/// once it was confirmed.
pub proof fn only_its_button_asks_for_a_writing(
    pre: Page,
    click: Option<Click>,
    post: Page,
    outcome: Outcome,
)
    requires
        shown(pre, click, post, outcome),
    ensures
        outcome matches Outcome::Declare(form) ==> click == Some(Click::SaveDeclaration)
            && pre.declaring == Some(*form) && declaration_ready(*form),
        outcome matches Outcome::Submission(form) ==> click == Some(Click::SaveSubmission)
            && pre.submitting == Some(*form) && submission_ready(*form),
        outcome matches Outcome::Consent(form) ==> click == Some(Click::OpenBrowser)
            && pre.consenting == Some(*form) && consent_ready(*form),
        outcome matches Outcome::Forget(id) ==> click matches Some(Click::ConfirmForget(_))
            && pre.forgetting == Some(id) && post.forgetting is None,
{
}

/// On a remote service, no click asks for anything to be written: neither an account, nor a
/// submission server, nor a forgetting, unless a form or a confirmation was already open.
pub proof fn a_remote_page_opens_no_form(pre: Page, click: Click, post: Page, outcome: Outcome)
    requires
        clicked(pre, click, post, outcome),
        pre.remote,
        pre.declaring is None,
        pre.submitting is None,
        pre.consenting is None,
        pre.forgetting is None,
    ensures
        outcome is Idle || outcome is Sync,
        post.declaring is None,
        post.submitting is None,
        post.consenting is None,
        post.forgetting is None,
{
}

} // verus!
