//! What the interface asks of the service, and what comes back.
//!
//! A request names a method and its parameters; an answer to it becomes a reply. The settings
//! page has requests of its own, which no method serves.
use crate::body::Block;
use crate::compose::Compose;
use crate::dto::{
    Account, Attached, Draft, Folder, Hello, Job, Message, MessageSource, Outgoing, Page, Queued,
    Results, Row, Source, Suggestion,
};
use crate::printed;
use crate::recipients;
use crate::settings;
use crate::settings::{AccountDetail, AccountForm, ConsentForm, SubmissionForm};
use crate::signature::Document;
use crate::text;
use vstd::prelude::*;
use vstd::string::*;

verus! {

// ---------------------------------------------------------------------------------------------
// Requests
// ---------------------------------------------------------------------------------------------

/// What a source is that of: two spaces of identifiers that are not to be confused.
#[derive(Debug, Clone, Copy, PartialEq, Eq, Structural)]
pub enum SourceOf {
    /// A received message.
    Message(i64),
    /// A line of the sending queue.
    Outgoing(i64),
}

/// What is decided of a message that may have left.
#[derive(Debug, Clone, Copy, PartialEq, Eq, Structural)]
pub enum Decision {
    /// It did not arrive: send it again.
    Resend,
    /// It arrived: mark it sent.
    Accept,
}

impl Decision {
    /// The word that names the decision.
    pub open spec fn word(self) -> Seq<char> {
        match self {
            Decision::Resend => "resend"@,
            Decision::Accept => "accept"@,
        }
    }

    /// The word that names the decision.
    pub fn as_str(self) -> (r: &'static str)
        ensures
            r@ == self.word(),
    {
        match self {
            Decision::Resend => "resend",
            Decision::Accept => "accept",
        }
    }

    /// The decision that a word names.
    pub fn parse(word: &str) -> (r: Option<Decision>)
        ensures
            r == if word@ == "resend"@ {
                Some(Decision::Resend)
            } else if word@ == "accept"@ {
                Some(Decision::Accept)
            } else {
                None
            },
    {
        if text::same(word, "resend") {
            Some(Decision::Resend)
        } else if text::same(word, "accept") {
            Some(Decision::Accept)
        } else {
            None
        }
    }
}

/// What the interface can ask for.
pub enum Request {
    /// The first screen: the folders, and the first page of the one that opens.
    Bootstrap { limit: u32 },
    Hello,
    Folders,
    /// A page of rows, behind a cursor.
    Page { folder: i64, after: Option<String>, limit: u32 },
    Open { id: i64, remote_images: bool },
    Thread { id: i64 },
    Search { query: String, limit: u32 },
    Sources,
    StartImport { source: usize },
    StartIndex,
    StartSync { account: i64 },
    Accounts,
    MarkRead { id: i64, folder: i64 },
    Decide { id: i64, decision: Decision },
    /// Send a failed message again.
    Retry { id: i64 },
    /// Hold back a message that is still in the queue.
    Cancel { id: i64 },
    /// Put a file in the store, to attach it.
    Attach { path: String },
    Complete { prefix: String, token: u64 },
    Outbox,
    /// Put a message in the sending queue.
    Send(Box<Compose>),
    Signature { account: i64 },
    SetSignature { account: i64, signature: Option<Document> },
    /// Put a part of a received message in the store, to attach it elsewhere.
    StagePart { id: i64, part: usize },
    Drafts,
    SaveDraft(Box<Compose>),
    DeleteDraft { id: i64 },
    Jobs,
    Source { of: SourceOf },
    AccountsDetail,
    DeclareAccount(Box<AccountForm>),
    SetSubmission(Box<SubmissionForm>),
    ForgetAccount { id: i64 },
    Consent(Box<ConsentForm>),
}

/// The methods of the service.
#[derive(Debug, Clone, Copy, PartialEq, Eq, Structural)]
pub enum Method {
    ServerHello,
    FoldersList,
    MessagesPage,
    MessagesGet,
    MessagesThread,
    MessagesSource,
    MessagesMarkRead,
    MessagesStagePart,
    OutboxSource,
    OutboxDecide,
    OutboxRetry,
    OutboxCancel,
    OutboxList,
    OutboxSend,
    SearchQuery,
    JobsSources,
    JobsStart,
    JobsList,
    JobsGet,
    AccountsList,
    AccountsSignature,
    AccountsSetSignature,
    ContactsComplete,
    DraftsList,
    DraftsSave,
    DraftsDelete,
    StoreRevision,
    StoreWait,
    StoreStats,
}

/// A parameter of a call.
pub enum Param<'a> {
    Null,
    Flag(bool),
    Int(i64),
    Count(u64),
    Text(&'a str),
    Texts(Vec<String>),
    List(&'a Vec<String>),
    Files(&'a Vec<Attached>),
    Signature(&'a Document),
}

/// A parameter of a call, in values.
pub enum Datum {
    Null,
    Flag(bool),
    Number(int),
    Text(Seq<char>),
    Texts(Seq<Seq<char>>),
    Files(Seq<Attached>),
    Signature(Document),
}

/// The value of a parameter.
pub open spec fn value_of(param: Param) -> Datum {
    match param {
        Param::Null => Datum::Null,
        Param::Flag(flag) => Datum::Flag(flag),
        Param::Int(n) => Datum::Number(n as int),
        Param::Count(n) => Datum::Number(n as int),
        Param::Text(s) => Datum::Text(s@),
        Param::Texts(list) => Datum::Texts(text::texts(list@)),
        Param::List(list) => Datum::Texts(text::texts(list@)),
        Param::Files(files) => Datum::Files(files@),
        Param::Signature(document) => Datum::Signature(*document),
    }
}

/// The named values of a list of parameters.
pub open spec fn values_of(fields: Seq<(&str, Param)>) -> Seq<(Seq<char>, Datum)> {
    Seq::new(fields.len(), |i: int| (fields[i].0@, value_of(fields[i].1)))
}

/// A call of the service: what it is called on the screen, its method, and its parameters, where
/// it has any.
pub struct Call<'a> {
    pub what: &'static str,
    pub method: Method,
    pub params: Option<Vec<(&'static str, Param<'a>)>>,
}

/// The value of an optional number.
pub open spec fn opt_number(n: Option<i64>) -> Datum {
    match n {
        Some(n) => Datum::Number(n as int),
        None => Datum::Null,
    }
}

/// The value of an optional text.
pub open spec fn opt_words(s: Option<String>) -> Datum {
    match s {
        Some(s) => Datum::Text(s@),
        None => Datum::Null,
    }
}

/// What a request is called on the screen.
pub open spec fn what_of(request: Request) -> Seq<char> {
    match request {
        Request::Bootstrap { limit: _ } => "premier écran"@,
        Request::Attach { path: _ } => "pièce jointe"@,
        Request::AccountsDetail => "compte"@,
        Request::DeclareAccount(_) => "compte"@,
        Request::SetSubmission(_) => "compte"@,
        Request::ForgetAccount { id: _ } => "compte"@,
        Request::Consent(_) => "compte"@,
        Request::Hello => "hello"@,
        Request::Folders => "dossiers"@,
        Request::Page { folder: _, after: _, limit: _ } => "page"@,
        Request::Open { id: _, remote_images: _ } => "message"@,
        Request::Thread { id: _ } => "fil"@,
        Request::Source { of: _ } => "source"@,
        Request::Search { query: _, limit: _ } => "recherche"@,
        Request::Sources => "sources"@,
        Request::StartImport { source: _ } => "import"@,
        Request::StartIndex => "index"@,
        Request::StartSync { account: _ } => "synchronisation"@,
        Request::Jobs => "tâches"@,
        Request::Accounts => "comptes"@,
        Request::MarkRead { id: _, folder: _ } => "marquage lu"@,
        Request::Decide { id: _, decision: _ } => "décision"@,
        Request::Retry { id: _ } => "renvoi"@,
        Request::Cancel { id: _ } => "annulation"@,
        Request::Complete { prefix: _, token: _ } => "complétion"@,
        Request::Outbox => "file d'envoi"@,
        Request::StagePart { id: _, part: _ } => "reprise d'une pièce jointe"@,
        Request::Drafts => "brouillons"@,
        Request::SaveDraft(_) => "enregistrement du brouillon"@,
        Request::DeleteDraft { id: _ } => "suppression du brouillon"@,
        Request::Send(_) => "envoi"@,
        Request::Signature { account: _ } => "signature"@,
        Request::SetSignature { account: _, signature: _ } => "enregistrement de la signature"@,
    }
}

/// The method that serves a request. Those that no method serves stand beside `server.hello`.
pub open spec fn method_of(request: Request) -> Method {
    match request {
        Request::Bootstrap { limit: _ } => Method::FoldersList,
        Request::Attach { path: _ } => Method::ServerHello,
        Request::AccountsDetail => Method::ServerHello,
        Request::DeclareAccount(_) => Method::ServerHello,
        Request::SetSubmission(_) => Method::ServerHello,
        Request::ForgetAccount { id: _ } => Method::ServerHello,
        Request::Consent(_) => Method::ServerHello,
        Request::Hello => Method::ServerHello,
        Request::Folders => Method::FoldersList,
        Request::Page { folder: _, after: _, limit: _ } => Method::MessagesPage,
        Request::Open { id: _, remote_images: _ } => Method::MessagesGet,
        Request::Thread { id: _ } => Method::MessagesThread,
        Request::Source { of } => match of {
            SourceOf::Message(_) => Method::MessagesSource,
            SourceOf::Outgoing(_) => Method::OutboxSource,
        },
        Request::Search { query: _, limit: _ } => Method::SearchQuery,
        Request::Sources => Method::JobsSources,
        Request::StartImport { source: _ } => Method::JobsStart,
        Request::StartIndex => Method::JobsStart,
        Request::StartSync { account: _ } => Method::JobsStart,
        Request::Jobs => Method::JobsList,
        Request::Accounts => Method::AccountsList,
        Request::MarkRead { id: _, folder: _ } => Method::MessagesMarkRead,
        Request::Decide { id: _, decision: _ } => Method::OutboxDecide,
        Request::Retry { id: _ } => Method::OutboxRetry,
        Request::Cancel { id: _ } => Method::OutboxCancel,
        Request::Complete { prefix: _, token: _ } => Method::ContactsComplete,
        Request::Outbox => Method::OutboxList,
        Request::StagePart { id: _, part: _ } => Method::MessagesStagePart,
        Request::Drafts => Method::DraftsList,
        Request::SaveDraft(_) => Method::DraftsSave,
        Request::DeleteDraft { id: _ } => Method::DraftsDelete,
        Request::Send(_) => Method::OutboxSend,
        Request::Signature { account: _ } => Method::AccountsSignature,
        Request::SetSignature { account: _, signature: _ } => Method::AccountsSetSignature,
    }
}

/// A parameter that is a number.
pub open spec fn number(name: &str, n: int) -> (Seq<char>, Datum) {
    (name@, Datum::Number(n))
}

/// A parameter that is a text.
pub open spec fn words(name: &str, s: Seq<char>) -> (Seq<char>, Datum) {
    (name@, Datum::Text(s))
}

/// The parameters of a request, where it has any.
pub open spec fn params_of(request: Request) -> Option<Seq<(Seq<char>, Datum)>> {
    match request {
        Request::Page { folder, after, limit } => match after {
            Some(after) => Some(
                seq![
                    number("folder", folder as int),
                    words("after", after@),
                    number("limit", limit as int),
                ],
            ),
            None => Some(seq![number("folder", folder as int), number("limit", limit as int)]),
        },
        Request::Open { id, remote_images } => Some(
            seq![
                number("id", id as int),
                words("body", "html"@),
                ("remote_images"@, Datum::Flag(remote_images)),
            ],
        ),
        Request::Thread { id } => Some(seq![number("id", id as int)]),
        Request::Source { of } => match of {
            SourceOf::Message(id) => Some(seq![number("id", id as int)]),
            SourceOf::Outgoing(id) => Some(seq![number("id", id as int)]),
        },
        Request::Search { query, limit } => Some(
            seq![words("query", query@), number("limit", limit as int)],
        ),
        Request::StartImport { source } => Some(
            seq![words("kind", "import"@), number("source", source as int)],
        ),
        Request::StartIndex => Some(seq![words("kind", "index"@)]),
        Request::StartSync { account } => Some(
            seq![words("kind", "sync"@), number("account", account as int)],
        ),
        Request::MarkRead { id, folder } => Some(
            seq![number("id", id as int), number("folder", folder as int)],
        ),
        Request::Decide { id, decision } => Some(
            seq![number("id", id as int), words("decision", decision.word())],
        ),
        Request::Retry { id } => Some(seq![number("id", id as int)]),
        Request::Cancel { id } => Some(seq![number("id", id as int)]),
        Request::Complete { prefix, token: _ } => Some(seq![words("prefix", prefix@)]),
        Request::StagePart { id, part } => Some(
            seq![number("id", id as int), number("part", part as int)],
        ),
        Request::SaveDraft(it) => Some(
            seq![
                ("id"@, opt_number(it.draft)),
                number("account", it.account as int),
                words("to", it.to@),
                words("cc", it.cc@),
                words("bcc", it.bcc@),
                words("subject", it.subject@),
                words("body", it.text@),
                ("in_reply_to"@, opt_words(it.in_reply_to)),
                ("references"@, Datum::Texts(text::texts(it.references@))),
                ("sign"@, Datum::Flag(it.sign)),
                ("attachments"@, Datum::Files(it.attachments@)),
            ],
        ),
        Request::DeleteDraft { id } => Some(seq![number("id", id as int)]),
        Request::Send(it) => Some(
            seq![
                number("account", it.account as int),
                ("to"@, Datum::Texts(recipients::recipients_of(it.to@))),
                ("cc"@, Datum::Texts(recipients::recipients_of(it.cc@))),
                ("bcc"@, Datum::Texts(recipients::recipients_of(it.bcc@))),
                words("subject", it.subject@),
                words("text", it.text@),
                ("signature"@, Datum::Flag(it.sign)),
                ("in_reply_to"@, opt_words(it.in_reply_to)),
                ("references"@, Datum::Texts(text::texts(it.references@))),
                ("attachments"@, Datum::Files(it.attachments@)),
            ],
        ),
        Request::Signature { account } => Some(seq![number("account", account as int)]),
        Request::SetSignature { account, signature } => Some(
            seq![
                number("account", account as int),
                (
                    "signature"@,
                    match signature {
                        Some(document) => Datum::Signature(document),
                        None => Datum::Null,
                    },
                ),
            ],
        ),
        _ => None,
    }
}

/// Whether a call is that of a request.
pub open spec fn calls(request: Request, call: Call) -> bool {
    &&& call.what@ == what_of(request)
    &&& call.method == method_of(request)
    &&& match call.params {
        Some(fields) => params_of(request) == Some(values_of(fields@)),
        None => params_of(request) is None,
    }
}

/// What a request is called on the screen.
pub fn what(request: &Request) -> (r: &'static str)
    ensures
        r@ == what_of(*request),
{
    match request {
        Request::Bootstrap { .. } => "premier écran",
        Request::Attach { .. } => "pièce jointe",
        Request::AccountsDetail => "compte",
        Request::DeclareAccount(_) => "compte",
        Request::SetSubmission(_) => "compte",
        Request::ForgetAccount { .. } => "compte",
        Request::Consent(_) => "compte",
        Request::Hello => "hello",
        Request::Folders => "dossiers",
        Request::Page { .. } => "page",
        Request::Open { .. } => "message",
        Request::Thread { .. } => "fil",
        Request::Source { .. } => "source",
        Request::Search { .. } => "recherche",
        Request::Sources => "sources",
        Request::StartImport { .. } => "import",
        Request::StartIndex => "index",
        Request::StartSync { .. } => "synchronisation",
        Request::Jobs => "tâches",
        Request::Accounts => "comptes",
        Request::MarkRead { .. } => "marquage lu",
        Request::Decide { .. } => "décision",
        Request::Retry { .. } => "renvoi",
        Request::Cancel { .. } => "annulation",
        Request::Complete { .. } => "complétion",
        Request::Outbox => "file d'envoi",
        Request::StagePart { .. } => "reprise d'une pièce jointe",
        Request::Drafts => "brouillons",
        Request::SaveDraft(_) => "enregistrement du brouillon",
        Request::DeleteDraft { .. } => "suppression du brouillon",
        Request::Send(_) => "envoi",
        Request::Signature { .. } => "signature",
        Request::SetSignature { .. } => "enregistrement de la signature",
    }
}

fn method(request: &Request) -> (r: Method)
    ensures
        r == method_of(*request),
{
    match request {
        Request::Bootstrap { .. } => Method::FoldersList,
        Request::Folders => Method::FoldersList,
        Request::Page { .. } => Method::MessagesPage,
        Request::Open { .. } => Method::MessagesGet,
        Request::Thread { .. } => Method::MessagesThread,
        Request::Source { of } => match of {
            SourceOf::Message(_) => Method::MessagesSource,
            SourceOf::Outgoing(_) => Method::OutboxSource,
        },
        Request::Search { .. } => Method::SearchQuery,
        Request::Sources => Method::JobsSources,
        Request::StartImport { .. } => Method::JobsStart,
        Request::StartIndex => Method::JobsStart,
        Request::StartSync { .. } => Method::JobsStart,
        Request::Jobs => Method::JobsList,
        Request::Accounts => Method::AccountsList,
        Request::MarkRead { .. } => Method::MessagesMarkRead,
        Request::Decide { .. } => Method::OutboxDecide,
        Request::Retry { .. } => Method::OutboxRetry,
        Request::Cancel { .. } => Method::OutboxCancel,
        Request::Complete { .. } => Method::ContactsComplete,
        Request::Outbox => Method::OutboxList,
        Request::StagePart { .. } => Method::MessagesStagePart,
        Request::Drafts => Method::DraftsList,
        Request::SaveDraft(_) => Method::DraftsSave,
        Request::DeleteDraft { .. } => Method::DraftsDelete,
        Request::Send(_) => Method::OutboxSend,
        Request::Signature { .. } => Method::AccountsSignature,
        Request::SetSignature { .. } => Method::AccountsSetSignature,
        _ => Method::ServerHello,
    }
}

fn opt_int<'a>(n: Option<i64>) -> (r: Param<'a>)
    ensures
        value_of(r) == opt_number(n),
{
    match n {
        Some(n) => Param::Int(n),
        None => Param::Null,
    }
}

fn opt_text_param(s: &Option<String>) -> (r: Param<'_>)
    ensures
        value_of(r) == opt_words(*s),
{
    match s {
        Some(s) => Param::Text(s.as_str()),
        None => Param::Null,
    }
}

/// The parameters of a message that is put in the queue, or kept as a draft.
fn compose_params(it: &Compose, draft: bool) -> (r: Vec<(&'static str, Param<'_>)>)
    ensures
        draft ==> Some(values_of(r@)) == params_of(Request::SaveDraft(Box::new(*it))),
        !draft ==> Some(values_of(r@)) == params_of(Request::Send(Box::new(*it))),
{
    if draft {
        let fields = vec![
            ("id", opt_int(it.draft)),
            ("account", Param::Int(it.account)),
            ("to", Param::Text(it.to.as_str())),
            ("cc", Param::Text(it.cc.as_str())),
            ("bcc", Param::Text(it.bcc.as_str())),
            ("subject", Param::Text(it.subject.as_str())),
            ("body", Param::Text(it.text.as_str())),
            ("in_reply_to", opt_text_param(&it.in_reply_to)),
            ("references", Param::List(&it.references)),
            ("sign", Param::Flag(it.sign)),
            ("attachments", Param::Files(&it.attachments)),
        ];
        assert(values_of(fields@) =~= params_of(Request::SaveDraft(Box::new(*it)))->0);
        fields
    } else {
        let fields = vec![
            ("account", Param::Int(it.account)),
            ("to", Param::Texts(recipients::recipients(it.to.as_str()))),
            ("cc", Param::Texts(recipients::recipients(it.cc.as_str()))),
            ("bcc", Param::Texts(recipients::recipients(it.bcc.as_str()))),
            ("subject", Param::Text(it.subject.as_str())),
            ("text", Param::Text(it.text.as_str())),
            ("signature", Param::Flag(it.sign)),
            ("in_reply_to", opt_text_param(&it.in_reply_to)),
            ("references", Param::List(&it.references)),
            ("attachments", Param::Files(&it.attachments)),
        ];
        assert(values_of(fields@) =~= params_of(Request::Send(Box::new(*it)))->0);
        fields
    }
}

/// The parameters of a request, where it has any.
fn params(request: &Request) -> (r: Option<Vec<(&'static str, Param<'_>)>>)
    ensures
        match r {
            Some(fields) => params_of(*request) == Some(values_of(fields@)),
            None => params_of(*request) is None,
        },
{
    let fields = match request {
        Request::Page { folder, after, limit } => match after {
            Some(after) => vec![
                ("folder", Param::Int(*folder)),
                ("after", Param::Text(after.as_str())),
                ("limit", Param::Count(*limit as u64)),
            ],
            None => vec![
                ("folder", Param::Int(*folder)),
                ("limit", Param::Count(*limit as u64)),
            ],
        },
        Request::Open { id, remote_images } => vec![
            ("id", Param::Int(*id)),
            ("body", Param::Text("html")),
            ("remote_images", Param::Flag(*remote_images)),
        ],
        Request::Thread { id } => vec![("id", Param::Int(*id))],
        Request::Source { of } => match of {
            SourceOf::Message(id) => vec![("id", Param::Int(*id))],
            SourceOf::Outgoing(id) => vec![("id", Param::Int(*id))],
        },
        Request::Search { query, limit } => vec![
            ("query", Param::Text(query.as_str())),
            ("limit", Param::Count(*limit as u64)),
        ],
        Request::StartImport { source } => vec![
            ("kind", Param::Text("import")),
            ("source", Param::Count(*source as u64)),
        ],
        Request::StartIndex => vec![("kind", Param::Text("index"))],
        Request::StartSync { account } => vec![
            ("kind", Param::Text("sync")),
            ("account", Param::Int(*account)),
        ],
        Request::MarkRead { id, folder } => vec![
            ("id", Param::Int(*id)),
            ("folder", Param::Int(*folder)),
        ],
        Request::Decide { id, decision } => vec![
            ("id", Param::Int(*id)),
            ("decision", Param::Text(decision.as_str())),
        ],
        Request::Retry { id } => vec![("id", Param::Int(*id))],
        Request::Cancel { id } => vec![("id", Param::Int(*id))],
        Request::Complete { prefix, .. } => vec![("prefix", Param::Text(prefix.as_str()))],
        Request::StagePart { id, part } => vec![
            ("id", Param::Int(*id)),
            ("part", Param::Count(*part as u64)),
        ],
        Request::SaveDraft(it) => compose_params(it, true),
        Request::DeleteDraft { id } => vec![("id", Param::Int(*id))],
        Request::Send(it) => compose_params(it, false),
        Request::Signature { account } => vec![("account", Param::Int(*account))],
        Request::SetSignature { account, signature } => vec![
            ("account", Param::Int(*account)),
            (
                "signature",
                match signature {
                    Some(document) => Param::Signature(document),
                    None => Param::Null,
                },
            ),
        ],
        _ => {
            return None;
        },
    };
    assert(values_of(fields@) =~= params_of(*request)->0);
    Some(fields)
}

/// The name, the method and the parameters of a request.
pub fn describe(request: &Request) -> (r: Call<'_>)
    ensures
        calls(*request, r),
{
    Call { what: what(request), method: method(request), params: params(request) }
}

// ---------------------------------------------------------------------------------------------
// Replies
// ---------------------------------------------------------------------------------------------

/// A message that was opened, and its body cut into blocks.
pub struct Opened {
    pub message: Message,
    pub body: Vec<Block>,
}

/// What comes back.
#[allow(inconsistent_fields)]
pub enum Reply {
    /// The first screen: the folders, the one that opens, and its first page.
    Bootstrap { folders: Vec<Folder>, folder: i64, page: Page },
    Hello(Hello),
    Folders(Vec<Folder>),
    /// A page, with the folder and the cursor of its request: a page that comes late is known by
    /// its cursor.
    Page { folder: i64, after: Option<String>, page: Page },
    Open(Option<Opened>),
    Thread(Vec<Row>),
    Search(Results),
    Sources(Vec<Source>),
    Jobs(Vec<Job>),
    Accounts(Vec<Account>),
    Attached(Attached),
    /// The proposals, with the token of their request: those of an earlier key are known by it.
    Complete { token: u64, found: Vec<Suggestion> },
    Outbox(Vec<Outgoing>),
    /// The source, with what it is the source of.
    Source { of: SourceOf, found: Option<MessageSource> },
    AccountsDetail(Vec<AccountDetail>),
    /// The address of a consent, before anybody waits for it.
    ConsentUrl(String),
    AccountWritten(String),
    Drafts(Vec<Draft>),
    /// A draft was kept under this number, or was empty and is gone.
    Saved(Option<i64>),
    /// The signature of an account, as the store has it.
    Signature { account: i64, found: Option<Document> },
    Queued(Queued),
    /// Whether a message was held back in time.
    Cancelled(bool),
    Acknowledged,
    Started,
    /// The store has moved. Nobody asked.
    Changed,
    /// The transport is back.
    Online,
    /// A call that was refused or that failed; `transport` tells an unreachable service from a
    /// refusal.
    Failed { what: &'static str, message: String, transport: bool },
}

/// The failure of a request.
pub open spec fn is_failure(
    reply: Reply,
    what: Seq<char>,
    message: Seq<char>,
    transport: bool,
) -> bool {
    reply matches Reply::Failed { what: w, message: m, transport: t } && w@ == what && m@ == message
        && t == transport
}

/// What the result of a call is read as.
#[derive(Debug, Clone, Copy, PartialEq, Eq, Structural)]
pub enum Shape {
    /// Nothing is read of it.
    Nothing,
    Hello,
    Folders,
    Page,
    Message,
    Thread,
    Source,
    Results,
    Sources,
    Jobs,
    Accounts,
    Suggestions,
    Outbox,
    Attached,
    Drafts,
    Draft,
    Queued,
    Cancelled,
    Signature,
}

/// The result of a call, read.
pub enum Decoded {
    Nothing,
    Hello(Hello),
    Folders(Vec<Folder>),
    Page(Page),
    Message(Option<Opened>),
    Thread(Vec<Row>),
    Source(Option<MessageSource>),
    Results(Results),
    Sources(Vec<Source>),
    Jobs(Vec<Job>),
    Accounts(Vec<Account>),
    Suggestions(Vec<Suggestion>),
    Outbox(Vec<Outgoing>),
    Attached(Attached),
    Drafts(Vec<Draft>),
    Draft(Option<Draft>),
    Queued(Queued),
    Cancelled(bool),
    Signature(Option<Document>),
    /// The result is not of the shape that the request wants, and why.
    Unreadable(String),
}

/// The shape of the result of a request; none where the request has no method of its own.
pub open spec fn shape_of(request: Request) -> Option<Shape> {
    match request {
        Request::Bootstrap { limit: _ } => None,
        Request::Attach { path: _ } => None,
        Request::AccountsDetail => None,
        Request::DeclareAccount(_) => None,
        Request::SetSubmission(_) => None,
        Request::ForgetAccount { id: _ } => None,
        Request::Consent(_) => None,
        Request::Hello => Some(Shape::Hello),
        Request::Folders => Some(Shape::Folders),
        Request::Page { folder: _, after: _, limit: _ } => Some(Shape::Page),
        Request::Open { id: _, remote_images: _ } => Some(Shape::Message),
        Request::Thread { id: _ } => Some(Shape::Thread),
        Request::Source { of: _ } => Some(Shape::Source),
        Request::Search { query: _, limit: _ } => Some(Shape::Results),
        Request::Sources => Some(Shape::Sources),
        Request::StartImport { source: _ } => Some(Shape::Nothing),
        Request::StartIndex => Some(Shape::Nothing),
        Request::StartSync { account: _ } => Some(Shape::Nothing),
        Request::Jobs => Some(Shape::Jobs),
        Request::Accounts => Some(Shape::Accounts),
        Request::MarkRead { id: _, folder: _ } => Some(Shape::Nothing),
        Request::Decide { id: _, decision: _ } => Some(Shape::Nothing),
        Request::Retry { id: _ } => Some(Shape::Nothing),
        Request::Cancel { id: _ } => Some(Shape::Cancelled),
        Request::Complete { prefix: _, token: _ } => Some(Shape::Suggestions),
        Request::Outbox => Some(Shape::Outbox),
        Request::StagePart { id: _, part: _ } => Some(Shape::Attached),
        Request::Drafts => Some(Shape::Drafts),
        Request::SaveDraft(_) => Some(Shape::Draft),
        Request::DeleteDraft { id: _ } => Some(Shape::Nothing),
        Request::Send(_) => Some(Shape::Queued),
        Request::Signature { account: _ } => Some(Shape::Signature),
        Request::SetSignature { account: _, signature: _ } => Some(Shape::Signature),
    }
}

/// The shape that a result was read in.
pub open spec fn shape_read(decoded: Decoded) -> Option<Shape> {
    match decoded {
        Decoded::Nothing => Some(Shape::Nothing),
        Decoded::Hello(_) => Some(Shape::Hello),
        Decoded::Folders(_) => Some(Shape::Folders),
        Decoded::Page(_) => Some(Shape::Page),
        Decoded::Message(_) => Some(Shape::Message),
        Decoded::Thread(_) => Some(Shape::Thread),
        Decoded::Source(_) => Some(Shape::Source),
        Decoded::Results(_) => Some(Shape::Results),
        Decoded::Sources(_) => Some(Shape::Sources),
        Decoded::Jobs(_) => Some(Shape::Jobs),
        Decoded::Accounts(_) => Some(Shape::Accounts),
        Decoded::Suggestions(_) => Some(Shape::Suggestions),
        Decoded::Outbox(_) => Some(Shape::Outbox),
        Decoded::Attached(_) => Some(Shape::Attached),
        Decoded::Drafts(_) => Some(Shape::Drafts),
        Decoded::Draft(_) => Some(Shape::Draft),
        Decoded::Queued(_) => Some(Shape::Queued),
        Decoded::Cancelled(_) => Some(Shape::Cancelled),
        Decoded::Signature(_) => Some(Shape::Signature),
        Decoded::Unreadable(_) => None,
    }
}

/// Why a request that no method serves has no result to read; none of any other request.
pub open spec fn undecodable(request: Request) -> Option<Seq<char>> {
    match request {
        Request::Bootstrap { limit: _ } => Some("le premier écran ne se décode pas ici"@),
        Request::Attach { path: _ } => Some("une pièce jointe ne se décode pas ici"@),
        Request::AccountsDetail => Some("une demande de compte ne se décode pas ici"@),
        Request::DeclareAccount(_) => Some("une demande de compte ne se décode pas ici"@),
        Request::SetSubmission(_) => Some("une demande de compte ne se décode pas ici"@),
        Request::ForgetAccount { id: _ } => Some("une demande de compte ne se décode pas ici"@),
        Request::Consent(_) => Some("une demande de compte ne se décode pas ici"@),
        _ => None,
    }
}

/// The reply to a request whose result was read in its shape.
pub open spec fn reply_of(request: Request, decoded: Decoded) -> Reply {
    match (request, decoded) {
        (Request::Hello, Decoded::Hello(it)) => Reply::Hello(it),
        (Request::Folders, Decoded::Folders(it)) => Reply::Folders(it),
        (Request::Page { folder, after, limit: _ }, Decoded::Page(page)) => Reply::Page {
            folder,
            after,
            page,
        },
        (Request::Open { id: _, remote_images: _ }, Decoded::Message(it)) => Reply::Open(it),
        (Request::Thread { id: _ }, Decoded::Thread(it)) => Reply::Thread(it),
        (Request::Source { of }, Decoded::Source(found)) => Reply::Source { of, found },
        (Request::Search { query: _, limit: _ }, Decoded::Results(it)) => Reply::Search(it),
        (Request::Sources, Decoded::Sources(it)) => Reply::Sources(it),
        (Request::StartImport { source: _ }, _) => Reply::Started,
        (Request::StartIndex, _) => Reply::Started,
        (Request::StartSync { account: _ }, _) => Reply::Started,
        (Request::Jobs, Decoded::Jobs(it)) => Reply::Jobs(it),
        (Request::Accounts, Decoded::Accounts(it)) => Reply::Accounts(it),
        (Request::Cancel { id: _ }, Decoded::Cancelled(it)) => Reply::Cancelled(it),
        (Request::Complete { prefix: _, token }, Decoded::Suggestions(found)) => Reply::Complete {
            token,
            found,
        },
        (Request::Outbox, Decoded::Outbox(it)) => Reply::Outbox(it),
        (Request::StagePart { id: _, part: _ }, Decoded::Attached(it)) => Reply::Attached(it),
        (Request::Drafts, Decoded::Drafts(it)) => Reply::Drafts(it),
        (Request::SaveDraft(_), Decoded::Draft(it)) => Reply::Saved(
            match it {
                Some(draft) => draft.id,
                None => None,
            },
        ),
        (Request::Send(_), Decoded::Queued(it)) => Reply::Queued(it),
        (Request::Signature { account }, Decoded::Signature(found)) => Reply::Signature {
            account,
            found,
        },
        (
            Request::SetSignature { account, signature: _ },
            Decoded::Signature(found),
        ) => Reply::Signature { account, found },
        _ => Reply::Acknowledged,
    }
}

/// The shape of the result of a request; none where the request has no method of its own.
pub fn shape(request: &Request) -> (r: Option<Shape>)
    ensures
        r == shape_of(*request),
{
    match request {
        Request::Hello => Some(Shape::Hello),
        Request::Folders => Some(Shape::Folders),
        Request::Page { .. } => Some(Shape::Page),
        Request::Open { .. } => Some(Shape::Message),
        Request::Thread { .. } => Some(Shape::Thread),
        Request::Source { .. } => Some(Shape::Source),
        Request::Search { .. } => Some(Shape::Results),
        Request::Sources => Some(Shape::Sources),
        Request::StartImport { .. } => Some(Shape::Nothing),
        Request::StartIndex => Some(Shape::Nothing),
        Request::StartSync { .. } => Some(Shape::Nothing),
        Request::Jobs => Some(Shape::Jobs),
        Request::Accounts => Some(Shape::Accounts),
        Request::MarkRead { .. } => Some(Shape::Nothing),
        Request::Decide { .. } => Some(Shape::Nothing),
        Request::Retry { .. } => Some(Shape::Nothing),
        Request::Cancel { .. } => Some(Shape::Cancelled),
        Request::Complete { .. } => Some(Shape::Suggestions),
        Request::Outbox => Some(Shape::Outbox),
        Request::StagePart { .. } => Some(Shape::Attached),
        Request::Drafts => Some(Shape::Drafts),
        Request::SaveDraft(_) => Some(Shape::Draft),
        Request::DeleteDraft { .. } => Some(Shape::Nothing),
        Request::Send(_) => Some(Shape::Queued),
        Request::Signature { .. } => Some(Shape::Signature),
        Request::SetSignature { .. } => Some(Shape::Signature),
        _ => None,
    }
}

fn no_result(request: &Request) -> (r: Option<&'static str>)
    ensures
        text::opt_str(r) == undecodable(*request),
{
    match request {
        Request::Bootstrap { .. } => Some("le premier écran ne se décode pas ici"),
        Request::Attach { .. } => Some("une pièce jointe ne se décode pas ici"),
        Request::AccountsDetail => Some("une demande de compte ne se décode pas ici"),
        Request::DeclareAccount(_) => Some("une demande de compte ne se décode pas ici"),
        Request::SetSubmission(_) => Some("une demande de compte ne se décode pas ici"),
        Request::ForgetAccount { .. } => Some("une demande de compte ne se décode pas ici"),
        Request::Consent(_) => Some("une demande de compte ne se décode pas ici"),
        _ => None,
    }
}

/// What the result of a request becomes, or why it cannot be used.
///
/// A result that was not read in the shape of the request is refused as an unexpected answer.
/// Where nothing is wanted of the result, whatever it holds is an acknowledgement.
pub fn decode(request: Request, decoded: Decoded) -> (r: Result<Reply, String>)
    ensures
        match r {
            Ok(reply) => {
                &&& shape_of(request) is Some
                &&& shape_of(request) == Some(Shape::Nothing) || shape_of(request) == shape_read(
                    decoded,
                )
                &&& reply == reply_of(request, decoded)
            },
            Err(message) => match undecodable(request) {
                Some(words) => message@ == words,
                None => {
                    &&& shape_of(request) != Some(Shape::Nothing)
                    &&& shape_of(request) != shape_read(decoded)
                    &&& decoded matches Decoded::Unreadable(why) ==> message@
                        == "réponse inattendue : "@ + why@
                    &&& !(decoded is Unreadable) ==> message@ == "réponse inattendue"@
                },
            },
        },
{
    match no_result(&request) {
        Some(words) => {
            return Err(words.to_owned());
        },
        None => {},
    }
    Ok(
        match (request, decoded) {
            (Request::StartImport { .. }, _) => Reply::Started,
            (Request::StartIndex, _) => Reply::Started,
            (Request::StartSync { .. }, _) => Reply::Started,
            (Request::MarkRead { .. }, _) => Reply::Acknowledged,
            (Request::Decide { .. }, _) => Reply::Acknowledged,
            (Request::Retry { .. }, _) => Reply::Acknowledged,
            (Request::DeleteDraft { .. }, _) => Reply::Acknowledged,
            (Request::Hello, Decoded::Hello(it)) => Reply::Hello(it),
            (Request::Folders, Decoded::Folders(it)) => Reply::Folders(it),
            (Request::Page { folder, after, .. }, Decoded::Page(page)) => Reply::Page {
                folder,
                after,
                page,
            },
            (Request::Open { .. }, Decoded::Message(it)) => Reply::Open(it),
            (Request::Thread { .. }, Decoded::Thread(it)) => Reply::Thread(it),
            (Request::Source { of }, Decoded::Source(found)) => Reply::Source { of, found },
            (Request::Search { .. }, Decoded::Results(it)) => Reply::Search(it),
            (Request::Sources, Decoded::Sources(it)) => Reply::Sources(it),
            (Request::Jobs, Decoded::Jobs(it)) => Reply::Jobs(it),
            (Request::Accounts, Decoded::Accounts(it)) => Reply::Accounts(it),
            (Request::Cancel { .. }, Decoded::Cancelled(it)) => Reply::Cancelled(it),
            (Request::Complete { token, .. }, Decoded::Suggestions(found)) => Reply::Complete {
                token,
                found,
            },
            (Request::Outbox, Decoded::Outbox(it)) => Reply::Outbox(it),
            (Request::StagePart { .. }, Decoded::Attached(it)) => Reply::Attached(it),
            (Request::Drafts, Decoded::Drafts(it)) => Reply::Drafts(it),
            (Request::SaveDraft(_), Decoded::Draft(it)) => Reply::Saved(
                match it {
                    Some(draft) => draft.id,
                    None => None,
                },
            ),
            (Request::Send(_), Decoded::Queued(it)) => Reply::Queued(it),
            (Request::Signature { account }, Decoded::Signature(found)) => Reply::Signature {
                account,
                found,
            },
            (Request::SetSignature { account, .. }, Decoded::Signature(found)) => Reply::Signature {
                account,
                found,
            },
            (_, Decoded::Unreadable(why)) => {
                let mut message = "réponse inattendue : ".to_owned();
                message.append(why.as_str());
                return Err(message);
            },
            _ => {
                return Err("réponse inattendue".to_owned());
            },
        },
    )
}

// ---------------------------------------------------------------------------------------------
// Serving
// ---------------------------------------------------------------------------------------------

/// Who serves a request.
#[derive(Debug, Clone, Copy, PartialEq, Eq, Structural)]
pub enum Route {
    /// Two calls in a row: the folders, then a page.
    FirstScreen,
    /// A file is put in the store; its path leaves the process by no method.
    Stage,
    /// The store and the keyring of this machine; a secret goes through no method.
    Accounts,
    /// A person goes through a browser: it has a thread of its own.
    Consent,
    /// A call of the service.
    Call,
}

/// Who serves a request.
pub open spec fn route_of(request: Request) -> Route {
    match request {
        Request::Bootstrap { limit: _ } => Route::FirstScreen,
        Request::Attach { path: _ } => Route::Stage,
        Request::AccountsDetail => Route::Accounts,
        Request::DeclareAccount(_) => Route::Accounts,
        Request::SetSubmission(_) => Route::Accounts,
        Request::ForgetAccount { id: _ } => Route::Accounts,
        Request::Consent(_) => Route::Consent,
        _ => Route::Call,
    }
}

/// Who serves a request.
pub fn route(request: &Request) -> (r: Route)
    ensures
        r == route_of(*request),
{
    match request {
        Request::Bootstrap { .. } => Route::FirstScreen,
        Request::Attach { .. } => Route::Stage,
        Request::AccountsDetail => Route::Accounts,
        Request::DeclareAccount(_) => Route::Accounts,
        Request::SetSubmission(_) => Route::Accounts,
        Request::ForgetAccount { .. } => Route::Accounts,
        Request::Consent(_) => Route::Consent,
        _ => Route::Call,
    }
}

/// The path of a file to attach and the forms of an account never become the parameters of a
/// call, and what a call is made for can be read in its result.
pub proof fn a_secret_goes_through_no_method(request: Request)
    ensures
        route_of(request) == Route::Call <==> shape_of(request) is Some,
        route_of(request) != Route::Call ==> params_of(request) is None,
        request is DeclareAccount || request is SetSubmission || request is Consent
            || request is Attach ==> route_of(request) != Route::Call,
{
}

/// A draft is saved as it was typed: nothing of the message is dropped or read on the way, not even
/// an address half written, so that two messages saved alike are one message.
pub proof fn a_draft_is_saved_as_it_was_typed(typed: Compose, opened: Compose)
    requires
        params_of(Request::SaveDraft(Box::new(typed))) == params_of(
            Request::SaveDraft(Box::new(opened)),
        ),
    ensures
        opened.draft == typed.draft,
        opened.account == typed.account,
        opened.to@ == typed.to@,
        opened.cc@ == typed.cc@,
        opened.bcc@ == typed.bcc@,
        opened.subject@ == typed.subject@,
        opened.text@ == typed.text@,
        text::opt_text(opened.in_reply_to) == text::opt_text(typed.in_reply_to),
        text::texts(opened.references@) == text::texts(typed.references@),
        opened.sign == typed.sign,
        opened.attachments@ == typed.attachments@,
{
    let a = params_of(Request::SaveDraft(Box::new(typed)))->0;
    let b = params_of(Request::SaveDraft(Box::new(opened)))->0;
    assert(a[0].1 == b[0].1 && a[1].1 == b[1].1 && a[2].1 == b[2].1 && a[3].1 == b[3].1);
    assert(a[4].1 == b[4].1 && a[5].1 == b[5].1 && a[6].1 == b[6].1 && a[7].1 == b[7].1);
    assert(a[8].1 == b[8].1 && a[9].1 == b[9].1 && a[10].1 == b[10].1);
}

/// How a call of the service ended: its result, a refusal, or a transport that failed.
pub enum Answer {
    Done(Decoded),
    Refused(String),
    Down(String),
}

/// Whether a reply is what the end of a call makes of a request: a failure of the transport is
/// told from a refusal, and a result that cannot be used is the latter.
pub open spec fn served(request: Request, answer: Answer, reply: Reply) -> bool {
    match answer {
        Answer::Refused(message) => is_failure(reply, what_of(request), message@, false),
        Answer::Down(message) => is_failure(reply, what_of(request), message@, true),
        Answer::Done(decoded) => match undecodable(request) {
            Some(words) => is_failure(reply, what_of(request), words, false),
            None => if shape_of(request) == Some(Shape::Nothing) || shape_of(request) == shape_read(
                decoded,
            ) {
                reply == reply_of(request, decoded)
            } else {
                match decoded {
                    Decoded::Unreadable(why) => is_failure(
                        reply,
                        what_of(request),
                        "réponse inattendue : "@ + why@,
                        false,
                    ),
                    _ => is_failure(reply, what_of(request), "réponse inattendue"@, false),
                }
            },
        },
    }
}

/// What the end of a call makes of a request.
pub fn serve(request: Request, answer: Answer) -> (r: Reply)
    ensures
        served(request, answer, r),
{
    let what = what(&request);
    match answer {
        Answer::Done(decoded) => match decode(request, decoded) {
            Ok(reply) => reply,
            Err(message) => Reply::Failed { what, message, transport: false },
        },
        Answer::Refused(message) => Reply::Failed { what, message, transport: false },
        Answer::Down(message) => Reply::Failed { what, message, transport: true },
    }
}

/// What becomes of a file that was put in the store. A file that cannot be read is no failure of
/// the transport.
pub fn staged(outcome: Result<Attached, String>) -> (r: Reply)
    ensures
        match outcome {
            Ok(file) => r == Reply::Attached(file),
            Err(message) => is_failure(r, "pièce jointe"@, message@, false),
        },
{
    match outcome {
        Ok(file) => Reply::Attached(file),
        Err(message) => Reply::Failed { what: "pièce jointe", message, transport: false },
    }
}

/// What becomes of a write to the accounts: a sentence, or a refusal that is no failure of the
/// transport.
pub fn wrote(outcome: Result<String, String>) -> (r: Reply)
    ensures
        match outcome {
            Ok(said) => r == Reply::AccountWritten(said),
            Err(message) => is_failure(r, "compte"@, message@, false),
        },
{
    match outcome {
        Ok(said) => Reply::AccountWritten(said),
        Err(message) => Reply::Failed { what: "compte", message, transport: false },
    }
}

/// What becomes of the list of accounts.
pub fn listed(outcome: Result<Vec<AccountDetail>, String>) -> (r: Reply)
    ensures
        match outcome {
            Ok(found) => r == Reply::AccountsDetail(found),
            Err(message) => is_failure(r, "comptes"@, message@, false),
        },
{
    match outcome {
        Ok(found) => Reply::AccountsDetail(found),
        Err(message) => Reply::Failed { what: "comptes", message, transport: false },
    }
}

// ---------------------------------------------------------------------------------------------
// Logs
// ---------------------------------------------------------------------------------------------

/// What a log says of what a source is asked of.
pub open spec fn source_text(of: SourceOf) -> Seq<char> {
    match of {
        SourceOf::Message(id) => printed::around("Message"@, text::signed_dec(id as int)),
        SourceOf::Outgoing(id) => printed::around("Outgoing"@, text::signed_dec(id as int)),
    }
}

/// What a log says of a request: its variant and its fields, a form without its secret.
pub open spec fn logged_text(request: Request) -> Seq<char> {
    match request {
        Request::Bootstrap { limit } => printed::one_field("Bootstrap"@, "limit"@, text::dec(limit as nat)),
        Request::Hello => "Hello"@,
        Request::Folders => "Folders"@,
        Request::Page { folder, after, limit } => printed::three_fields(
            "Page"@,
            ("folder"@, text::signed_dec(folder as int)),
            ("after"@, printed::opt_words_text(after)),
            ("limit"@, text::dec(limit as nat)),
        ),
        Request::Open { id, remote_images } => printed::two_fields(
            "Open"@,
            ("id"@, text::signed_dec(id as int)),
            ("remote_images"@, printed::flag_text(remote_images)),
        ),
        Request::Thread { id } => printed::one_field("Thread"@, "id"@, text::signed_dec(id as int)),
        Request::Search { query, limit } => printed::two_fields(
            "Search"@,
            ("query"@, settings::debug_of(query@)),
            ("limit"@, text::dec(limit as nat)),
        ),
        Request::Sources => "Sources"@,
        Request::StartImport { source } => printed::one_field("StartImport"@, "source"@, text::dec(source as nat)),
        Request::StartIndex => "StartIndex"@,
        Request::StartSync { account } => printed::one_field("StartSync"@, "account"@, text::signed_dec(account as int)),
        Request::Accounts => "Accounts"@,
        Request::MarkRead { id, folder } => printed::two_fields(
            "MarkRead"@,
            ("id"@, text::signed_dec(id as int)),
            ("folder"@, text::signed_dec(folder as int)),
        ),
        Request::Decide { id, decision } => printed::two_fields(
            "Decide"@,
            ("id"@, text::signed_dec(id as int)),
            ("decision"@, settings::debug_of(decision.word())),
        ),
        Request::Retry { id } => printed::one_field("Retry"@, "id"@, text::signed_dec(id as int)),
        Request::Cancel { id } => printed::one_field("Cancel"@, "id"@, text::signed_dec(id as int)),
        Request::Attach { path } => printed::one_field("Attach"@, "path"@, settings::debug_of(path@)),
        Request::Complete { prefix, token } => printed::two_fields(
            "Complete"@,
            ("prefix"@, settings::debug_of(prefix@)),
            ("token"@, text::dec(token as nat)),
        ),
        Request::Outbox => "Outbox"@,
        Request::Send(it) => printed::around("Send"@, printed::compose_text(*it)),
        Request::Signature { account } => printed::one_field("Signature"@, "account"@, text::signed_dec(account as int)),
        Request::SetSignature { account, signature } => printed::two_fields(
            "SetSignature"@,
            ("account"@, text::signed_dec(account as int)),
            ("signature"@, printed::opt_document_text(signature)),
        ),
        Request::StagePart { id, part } => printed::two_fields(
            "StagePart"@,
            ("id"@, text::signed_dec(id as int)),
            ("part"@, text::dec(part as nat)),
        ),
        Request::Drafts => "Drafts"@,
        Request::SaveDraft(it) => printed::around("SaveDraft"@, printed::compose_text(*it)),
        Request::DeleteDraft { id } => printed::one_field("DeleteDraft"@, "id"@, text::signed_dec(id as int)),
        Request::Jobs => "Jobs"@,
        Request::Source { of } => printed::one_field("Source"@, "of"@, source_text(of)),
        Request::AccountsDetail => "AccountsDetail"@,
        Request::DeclareAccount(form) => printed::around("DeclareAccount"@, form.masked_text()),
        Request::SetSubmission(form) => printed::around("SetSubmission"@, printed::submission_text(*form)),
        Request::ForgetAccount { id } => printed::one_field("ForgetAccount"@, "id"@, text::signed_dec(id as int)),
        Request::Consent(form) => printed::around("Consent"@, form.masked_text()),
    }
}

fn source(of: &SourceOf) -> (r: String)
    ensures
        r@ == source_text(*of),
{
    match of {
        SourceOf::Message(id) => printed::wrap("Message", text::decimal_signed(*id).as_str()),
        SourceOf::Outgoing(id) => printed::wrap("Outgoing", text::decimal_signed(*id).as_str()),
    }
}

/// What a log says of a request.
pub fn logged(request: &Request) -> (r: String)
    ensures
        r@ == logged_text(*request),
{
    match request {
        Request::Bootstrap { limit } => printed::one(
            "Bootstrap",
            "limit",
            text::decimal(*limit as u64).as_str(),
        ),
        Request::Hello => "Hello".to_owned(),
        Request::Folders => "Folders".to_owned(),
        Request::Page { folder, after, limit } => printed::three(
            "Page",
            ("folder", text::decimal_signed(*folder).as_str()),
            ("after", printed::opt_words(after).as_str()),
            ("limit", text::decimal(*limit as u64).as_str()),
        ),
        Request::Open { id, remote_images } => printed::two(
            "Open",
            ("id", text::decimal_signed(*id).as_str()),
            ("remote_images", printed::flag(*remote_images)),
        ),
        Request::Thread { id } => printed::one(
            "Thread",
            "id",
            text::decimal_signed(*id).as_str(),
        ),
        Request::Search { query, limit } => printed::two(
            "Search",
            ("query", settings::debug(query.as_str()).as_str()),
            ("limit", text::decimal(*limit as u64).as_str()),
        ),
        Request::Sources => "Sources".to_owned(),
        Request::StartImport { source } => printed::one(
            "StartImport",
            "source",
            text::decimal_usize(*source).as_str(),
        ),
        Request::StartIndex => "StartIndex".to_owned(),
        Request::StartSync { account } => printed::one(
            "StartSync",
            "account",
            text::decimal_signed(*account).as_str(),
        ),
        Request::Accounts => "Accounts".to_owned(),
        Request::MarkRead { id, folder } => printed::two(
            "MarkRead",
            ("id", text::decimal_signed(*id).as_str()),
            ("folder", text::decimal_signed(*folder).as_str()),
        ),
        Request::Decide { id, decision } => printed::two(
            "Decide",
            ("id", text::decimal_signed(*id).as_str()),
            ("decision", settings::debug(decision.as_str()).as_str()),
        ),
        Request::Retry { id } => printed::one(
            "Retry",
            "id",
            text::decimal_signed(*id).as_str(),
        ),
        Request::Cancel { id } => printed::one(
            "Cancel",
            "id",
            text::decimal_signed(*id).as_str(),
        ),
        Request::Attach { path } => printed::one(
            "Attach",
            "path",
            settings::debug(path.as_str()).as_str(),
        ),
        Request::Complete { prefix, token } => printed::two(
            "Complete",
            ("prefix", settings::debug(prefix.as_str()).as_str()),
            ("token", text::decimal(*token).as_str()),
        ),
        Request::Outbox => "Outbox".to_owned(),
        Request::Send(it) => printed::wrap("Send", printed::compose(it).as_str()),
        Request::Signature { account } => printed::one(
            "Signature",
            "account",
            text::decimal_signed(*account).as_str(),
        ),
        Request::SetSignature { account, signature } => printed::two(
            "SetSignature",
            ("account", text::decimal_signed(*account).as_str()),
            ("signature", printed::opt_document(signature).as_str()),
        ),
        Request::StagePart { id, part } => printed::two(
            "StagePart",
            ("id", text::decimal_signed(*id).as_str()),
            ("part", text::decimal_usize(*part).as_str()),
        ),
        Request::Drafts => "Drafts".to_owned(),
        Request::SaveDraft(it) => printed::wrap("SaveDraft", printed::compose(it).as_str()),
        Request::DeleteDraft { id } => printed::one(
            "DeleteDraft",
            "id",
            text::decimal_signed(*id).as_str(),
        ),
        Request::Jobs => "Jobs".to_owned(),
        Request::Source { of } => printed::one(
            "Source",
            "of",
            source(of).as_str(),
        ),
        Request::AccountsDetail => "AccountsDetail".to_owned(),
        Request::DeclareAccount(form) => printed::wrap("DeclareAccount", form.masked().as_str()),
        Request::SetSubmission(form) => printed::wrap("SetSubmission", printed::submission(form).as_str()),
        Request::ForgetAccount { id } => printed::one(
            "ForgetAccount",
            "id",
            text::decimal_signed(*id).as_str(),
        ),
        Request::Consent(form) => printed::wrap("Consent", form.masked().as_str()),
    }
}

/// Two requests whose forms differ in their secrets alone, neither of them empty, read the same
/// in a log.
pub proof fn a_log_never_tells_a_secret(
    form: AccountForm,
    secret: String,
    consent: ConsentForm,
    client_secret: String,
)
    requires
        form.secret@.len() > 0,
        secret@.len() > 0,
        consent.client_secret@.len() > 0,
        client_secret@.len() > 0,
    ensures
        logged_text(Request::DeclareAccount(Box::new(form))) == logged_text(
            Request::DeclareAccount(Box::new(AccountForm { secret, ..form })),
        ),
        logged_text(Request::Consent(Box::new(consent))) == logged_text(
            Request::Consent(Box::new(ConsentForm { client_secret, ..consent })),
        ),
{
}

} // verus!
