//! What the panels and the window of the message write on the screen.
use crate::compose;
use crate::compose::Compose;
use crate::dates;
use crate::display;
use crate::dto::{Account, Attached, Draft, Job, Outgoing, Suggestion};
use crate::quote;
use crate::shell::{Field, Reader, Shell, Writing};
use crate::text;
use crate::writing;
use vstd::prelude::*;
use vstd::string::*;

verus! {

// ---------------------------------------------------------------------------------------------
// The bar
// ---------------------------------------------------------------------------------------------

/// What the bar at the top shows.
pub struct TopBar {
    /// A message can be written: some account sends.
    pub can_write: bool,
    /// There are results to clear.
    pub clears: bool,
    pub outbox: String,
    pub drafts: String,
    /// What the service says of its messages, where it has said anything.
    pub messages: Option<String>,
    /// Something is awaited.
    pub busy: bool,
    /// Why the service cannot be reached, while it cannot.
    pub offline: Option<String>,
    pub status: Option<String>,
    /// The line of the queue that can still be held back: only beside a sentence.
    pub cancel: Option<i64>,
}

/// Whether a bar shows the state of an interface.
pub open spec fn bars(shell: Shell, it: TopBar) -> bool {
    &&& it.can_write == (writing::sender(shell.writing.accounts@) is Some)
    &&& it.clears == (shell.list.results is Some)
    &&& it.outbox@ == display::outbox_label_text(shell.panels.outbox@)
    &&& it.drafts@ == display::drafts_label_text(shell.writing.drafts@.len())
    &&& text::opt_text(it.messages) == match shell.hello {
        Some(hello) => Some(display::messages_label_text(hello)),
        None => None,
    }
    &&& it.busy == (shell.list.searching || shell.list.loading_page || shell.reader.opening)
    &&& text::opt_text(it.offline) == text::opt_text(shell.notices.offline)
    &&& text::opt_text(it.status) == text::opt_text(shell.notices.status)
    &&& it.cancel == if shell.notices.status is Some {
        shell.notices.cancellable
    } else {
        None
    }
}

/// What the bar at the top shows.
pub fn top_bar(shell: &Shell) -> (r: TopBar)
    ensures
        bars(*shell, r),
{
    let messages = match &shell.hello {
        Some(hello) => Some(display::messages_label(hello)),
        None => None,
    };
    TopBar {
        can_write: shell.writing.default_sender().is_some(),
        clears: shell.list.results.is_some(),
        outbox: display::outbox_label(&shell.panels.outbox),
        drafts: display::drafts_label(shell.writing.drafts.len()),
        messages,
        busy: shell.list.searching || shell.list.loading_page || shell.reader.opening,
        offline: text::copy_opt(&shell.notices.offline),
        status: text::copy_opt(&shell.notices.status),
        cancel: match &shell.notices.status {
            Some(_) => shell.notices.cancellable,
            None => None,
        },
    }
}

// ---------------------------------------------------------------------------------------------
// Drafts
// ---------------------------------------------------------------------------------------------

/// A line of the panel of the drafts.
pub struct DraftLine {
    pub label: String,
    pub date: String,
    /// How many files it has, where it has any.
    pub files: Option<String>,
}

/// Whether a line shows a draft.
pub open spec fn drafts_line(draft: Draft, current_year: int, it: DraftLine) -> bool {
    &&& it.label@ == quote::elided(draft.label@, 70)
    &&& it.date@ == dates::short_date_text(draft.updated_at as int, current_year)
    &&& text::opt_text(it.files) == if draft.attachments@.len() > 0 {
        Some("📎 "@ + text::dec(draft.attachments@.len()))
    } else {
        None
    }
}

/// The lines of the panel of the drafts.
pub fn draft_lines(drafts: &Vec<Draft>, current_year: i64) -> (r: Vec<DraftLine>)
    ensures
        r@.len() == drafts@.len(),
        forall|i: int|
            0 <= i < r@.len() ==> drafts_line(drafts@[i], current_year as int, #[trigger] r@[i]),
{
    let mut out: Vec<DraftLine> = Vec::new();
    let mut i: usize = 0;
    while i < drafts.len()
        invariant
            i <= drafts.len(),
            out@.len() == i,
            forall|k: int|
                0 <= k < i ==> drafts_line(drafts@[k], current_year as int, #[trigger] out@[k]),
        decreases drafts.len() - i,
    {
        let draft = &drafts[i];
        let files = if draft.attachments.len() > 0 {
            let mut label = "📎 ".to_owned();
            label.append(text::decimal_usize(draft.attachments.len()).as_str());
            Some(label)
        } else {
            None
        };
        out.push(
            DraftLine {
                label: quote::elide(draft.label.as_str(), 70),
                date: dates::short_date(draft.updated_at, current_year),
                files,
            },
        );
        i = i + 1;
    }
    out
}

// ---------------------------------------------------------------------------------------------
// The reader
// ---------------------------------------------------------------------------------------------

/// What the reader shows.
pub enum ReaderView {
    /// Why the message did not open.
    Error(String),
    /// There is nothing to read, and why.
    Nothing(&'static str),
    /// The message.
    Message,
}

/// What the reader shows: an error comes before anything else.
pub fn reader_view(reader: &Reader) -> (r: ReaderView)
    ensures
        match r {
            ReaderView::Error(words) => reader.open_error matches Some(error) && words@ == error@,
            ReaderView::Nothing(words) => reader.open_error is None && reader.message is None
                && words@ == if reader.opening {
                "Ouverture…"@
            } else {
                "Aucun message sélectionné."@
            },
            ReaderView::Message => reader.open_error is None && reader.message is Some,
        },
{
    match &reader.open_error {
        Some(error) => ReaderView::Error(error.clone()),
        None => match &reader.message {
            Some(_) => ReaderView::Message,
            None => ReaderView::Nothing(
                if reader.opening {
                    "Ouverture…"
                } else {
                    "Aucun message sélectionné."
                },
            ),
        },
    }
}

// ---------------------------------------------------------------------------------------------
// The queue
// ---------------------------------------------------------------------------------------------

/// How many messages that have left the panel of the queue shows.
pub const OUTBOX_HISTORY: usize = 5;

/// Whether a line of the queue is over.
pub open spec fn is_sent(line: Outgoing) -> bool {
    line.state@ == "sent"@
}

/// The lines of the queue that are not over.
pub open spec fn open_lines(outbox: Seq<Outgoing>) -> Seq<Outgoing> {
    outbox.filter(|line: Outgoing| !is_sent(line))
}

/// The lines of the queue that are over.
pub open spec fn sent_lines(outbox: Seq<Outgoing>) -> Seq<Outgoing> {
    outbox.filter(|line: Outgoing| is_sent(line))
}

/// A line of the queue that is not over.
pub struct OpenLine {
    pub id: i64,
    /// Its state and its recipients; of a doubtful message the recipients alone.
    pub label: String,
    /// Nobody knows whether it left: the user decides.
    pub doubtful: bool,
    /// Why it was refused, where it was.
    pub error: Option<String>,
    /// It can be sent again as it is.
    pub resendable: bool,
}

/// The word for the state of a line.
pub open spec fn state_word(state: Seq<char>) -> Seq<char> {
    if state == "queued"@ {
        "en attente"@
    } else if state == "sending"@ {
        "en cours"@
    } else if state == "failed"@ {
        "échoué"@
    } else {
        state
    }
}

/// The recipients of a line.
pub open spec fn towards(line: Outgoing) -> Seq<char> {
    text::joined(text::texts(line.recipients@), ", "@)
}

/// Whether what is drawn is a line of the queue that is not over. A doubtful message is never
/// shown as refused.
pub open spec fn is_open_line(line: Outgoing, it: OpenLine) -> bool {
    &&& it.id == line.id
    &&& it.label@ == if line.doubtful {
        "→ "@ + towards(line)
    } else {
        state_word(line.state@) + " → "@ + towards(line)
    }
    &&& it.doubtful == line.doubtful
    &&& it.error == if line.doubtful {
        None
    } else {
        line.last_error
    }
    &&& it.resendable == line.resendable
}

/// What the panel of the queue shows.
pub struct OutboxView {
    pub open: Vec<OpenLine>,
    /// The last that have left, the latest first: the number and the recipients of each.
    pub sent: Vec<(i64, String)>,
    /// How many more have left.
    pub more: Option<String>,
}

/// How many that have left are shown.
pub open spec fn sent_shown(count: nat) -> nat {
    if count <= OUTBOX_HISTORY {
        count
    } else {
        OUTBOX_HISTORY as nat
    }
}

/// Whether what is shown is the queue: everything that is not over, and the last that have left.
pub open spec fn shows_outbox(outbox: Seq<Outgoing>, view: OutboxView) -> bool {
    let open = open_lines(outbox);
    let sent = sent_lines(outbox);
    let shown = sent_shown(sent.len());
    &&& view.open@.len() == open.len()
    &&& forall|i: int| 0 <= i < open.len() ==> is_open_line(open[i], #[trigger] view.open@[i])
    &&& view.sent@.len() == shown
    &&& forall|i: int|
        0 <= i < shown ==> (#[trigger] view.sent@[i]).0 == sent[sent.len() - 1 - i].id
            && view.sent@[i].1@ == "envoyé → "@ + towards(sent[sent.len() - 1 - i])
    &&& text::opt_text(view.more) == if sent.len() > shown {
        Some("… et "@ + text::dec((sent.len() - shown) as nat) + " autres envoyés"@)
    } else {
        None
    }
}

/// The panel of the queue hides no line that is not over, and bounds its history without hiding
/// that it does.
pub proof fn the_queue_hides_nothing_that_waits(outbox: Seq<Outgoing>, view: OutboxView)
    requires
        shows_outbox(outbox, view),
    ensures
        view.open@.len() == open_lines(outbox).len(),
        view.sent@.len() <= OUTBOX_HISTORY,
        view.more is Some <==> view.sent@.len() < sent_lines(outbox).len(),
{
}

fn word_of(state: &str) -> (r: String)
    ensures
        r@ == state_word(state@),
{
    if text::same(state, "queued") {
        "en attente".to_owned()
    } else if text::same(state, "sending") {
        "en cours".to_owned()
    } else if text::same(state, "failed") {
        "échoué".to_owned()
    } else {
        state.to_owned()
    }
}

fn open_line(line: &Outgoing) -> (r: OpenLine)
    ensures
        is_open_line(*line, r),
{
    let mut label = if line.doubtful {
        "→ ".to_owned()
    } else {
        let mut word = word_of(line.state.as_str());
        word.append(" → ");
        word
    };
    label.append(text::join(&line.recipients, ", ").as_str());
    OpenLine {
        id: line.id,
        label,
        doubtful: line.doubtful,
        error: if line.doubtful {
            None
        } else {
            text::copy_opt(&line.last_error)
        },
        resendable: line.resendable,
    }
}

/// The ranks of the lines that are over, and what is drawn of the others.
fn sort_out(outbox: &Vec<Outgoing>) -> (r: (Vec<OpenLine>, Vec<usize>))
    ensures
        r.0@.len() == open_lines(outbox@).len(),
        forall|i: int|
            0 <= i < r.0@.len() ==> is_open_line(open_lines(outbox@)[i], #[trigger] r.0@[i]),
        r.1@.len() == sent_lines(outbox@).len(),
        forall|i: int|
            0 <= i < r.1@.len() ==> (#[trigger] r.1@[i]) < outbox@.len() && outbox@[r.1@[i] as int]
                == sent_lines(outbox@)[i],
{
    let mut open: Vec<OpenLine> = Vec::new();
    let mut sent: Vec<usize> = Vec::new();
    let mut i: usize = 0;
    proof {
        reveal(Seq::filter);
    }
    while i < outbox.len()
        invariant
            i <= outbox.len(),
            open@.len() == open_lines(outbox@.take(i as int)).len(),
            forall|k: int|
                0 <= k < open@.len() ==> is_open_line(
                    open_lines(outbox@.take(i as int))[k],
                    #[trigger] open@[k],
                ),
            sent@.len() == sent_lines(outbox@.take(i as int)).len(),
            forall|k: int|
                0 <= k < sent@.len() ==> (#[trigger] sent@[k]) < outbox@.len()
                    && outbox@[sent@[k] as int] == sent_lines(outbox@.take(i as int))[k],
        decreases outbox.len() - i,
    {
        proof {
            assert(outbox@.take(i + 1).drop_last() == outbox@.take(i as int));
            assert(outbox@.take(i + 1).last() == outbox@[i as int]);
            reveal(Seq::filter);
        }
        if text::same(outbox[i].state.as_str(), "sent") {
            sent.push(i);
        } else {
            open.push(open_line(&outbox[i]));
        }
        i = i + 1;
    }
    assert(outbox@.take(outbox.len() as int) == outbox@);
    (open, sent)
}

/// What the panel of the queue shows.
pub fn outbox_view(outbox: &Vec<Outgoing>) -> (r: OutboxView)
    ensures
        shows_outbox(outbox@, r),
{
    let (open, ranks) = sort_out(outbox);
    let count: usize = ranks.len();
    let shown: usize = if count <= OUTBOX_HISTORY {
        count
    } else {
        OUTBOX_HISTORY
    };
    let ghost over = sent_lines(outbox@);
    let mut sent: Vec<(i64, String)> = Vec::new();
    let mut i: usize = 0;
    while i < shown
        invariant
            i <= shown <= count,
            count == ranks.len(),
            over.len() == count,
            forall|k: int|
                0 <= k < ranks@.len() ==> (#[trigger] ranks@[k]) < outbox@.len()
                    && outbox@[ranks@[k] as int] == over[k],
            sent@.len() == i,
            forall|k: int|
                0 <= k < i ==> (#[trigger] sent@[k]).0 == over[over.len() - 1 - k].id && sent@[k].1@
                    == "envoyé → "@ + towards(over[over.len() - 1 - k]),
        decreases shown - i,
    {
        let rank: usize = ranks[count - 1 - i];
        let line = &outbox[rank];
        let mut label = "envoyé → ".to_owned();
        label.append(text::join(&line.recipients, ", ").as_str());
        sent.push((line.id, label));
        i = i + 1;
    }
    let more = if count > shown {
        let mut out = "… et ".to_owned();
        out.append(text::decimal_usize(count - shown).as_str());
        out.append(" autres envoyés");
        Some(out)
    } else {
        None
    };
    OutboxView { open, sent, more }
}

// ---------------------------------------------------------------------------------------------
// The tasks and the cache
// ---------------------------------------------------------------------------------------------

/// The line of a task.
pub fn job_label(job: &Job) -> (r: String)
    ensures
        r@ == job.kind@ + " — "@ + job.state@,
{
    let mut out = job.kind.clone();
    out.append(" — ");
    out.append(job.state.as_str());
    out
}

/// What the button of the cache says.
pub fn purge_label(disabled: bool) -> (r: &'static str)
    ensures
        r@ == if disabled {
            "Cache purgé — plus rien n'est écrit"@
        } else {
            "Purger le cache de lecture"@
        },
{
    if disabled {
        "Cache purgé — plus rien n'est écrit"
    } else {
        "Purger le cache de lecture"
    }
}

// ---------------------------------------------------------------------------------------------
// The window of the message
// ---------------------------------------------------------------------------------------------

/// How an account is named: by its address, or by its name.
pub open spec fn account_name(account: Account) -> Seq<char> {
    match account.address {
        Some(address) => address@,
        None => account.name@,
    }
}

/// Whether an account is the first of that number.
pub open spec fn is_account(accounts: Seq<Account>, i: int, id: i64) -> bool {
    &&& 0 <= i < accounts.len()
    &&& accounts[i].id == id
    &&& forall|j: int| 0 <= j < i ==> (#[trigger] accounts[j]).id != id
}

/// How an account of this number is named; a dash where there is none.
pub open spec fn named(accounts: Seq<Account>, id: i64) -> Seq<char> {
    if exists|i: int| is_account(accounts, i, id) {
        account_name(accounts[choose|i: int| is_account(accounts, i, id)])
    } else {
        "—"@
    }
}

/// How an account is named.
pub fn account_label(account: &Account) -> (r: String)
    ensures
        r@ == account_name(*account),
{
    match &account.address {
        Some(address) => address.clone(),
        None => account.name.clone(),
    }
}

/// How the account of this number is named; a dash where there is none.
pub fn current_account(accounts: &Vec<Account>, id: i64) -> (r: String)
    ensures
        r@ == named(accounts@, id),
{
    let mut i: usize = 0;
    while i < accounts.len()
        invariant
            i <= accounts.len(),
            forall|j: int| 0 <= j < i ==> (#[trigger] accounts@[j]).id != id,
        decreases accounts.len() - i,
    {
        if accounts[i].id == id {
            assert(is_account(accounts@, i as int, id));
            let ghost k = choose|k: int| is_account(accounts@, k, id);
            assert(k == i) by {
                if k < i {
                    assert(accounts@[k].id != id);
                } else if i < k {
                    assert(accounts@[i as int].id != id);
                }
            }
            return account_label(&accounts[i]);
        }
        i = i + 1;
    }
    "—".to_owned()
}

/// What the window says of an account that cannot send.
pub fn no_submission(account: i64) -> (r: String)
    ensures
        r@ == "Pas de serveur d'envoi. Pour en poser un :\nmail account submission --account "@
            + text::signed_dec(account as int),
{
    let mut out = "Pas de serveur d'envoi. Pour en poser un :\nmail account submission --account ".to_owned();
    out.append(text::decimal_signed(account).as_str());
    out
}

/// Why an account cannot be chosen to send; nothing where it can.
pub fn unsendable(account: &Account) -> (r: Option<String>)
    ensures
        match r {
            Some(words) => !account.can_send && words@
                == "Pas de serveur d'envoi. Pour en poser un :\nmail account submission --account "@
                + text::signed_dec(account.id as int),
            None => account.can_send,
        },
{
    if account.can_send {
        None
    } else {
        Some(no_submission(account.id))
    }
}

/// Whether the proposals hang from a field: they were asked for it, and there are some.
pub fn proposes(writing: &Writing, field: Field) -> (r: bool)
    ensures
        r == (writing.suggesting == Some(field) && writing.suggestions@.len() > 0),
{
    match writing.suggesting {
        Some(asked) => asked == field && writing.suggestions.len() > 0,
        None => false,
    }
}

/// The title of the window.
pub fn compose_title(draft: &Compose) -> (r: &'static str)
    ensures
        r@ == if draft.in_reply_to is Some {
            "Répondre"@
        } else {
            "Nouveau message"@
        },
{
    if draft.in_reply_to.is_some() {
        "Répondre"
    } else {
        "Nouveau message"
    }
}

/// Why a proposal stands where it stands.
pub fn suggestion_hint(suggestion: &Suggestion) -> (r: String)
    ensures
        r@ == text::dec(suggestion.seen_to as nat) + " envoyé(s), "@ + text::dec(
            suggestion.seen_from as nat,
        ) + " reçu(s)"@,
{
    let mut out = text::decimal(suggestion.seen_to);
    out.append(" envoyé(s), ");
    out.append(text::decimal(suggestion.seen_from).as_str());
    out.append(" reçu(s)");
    out
}

/// The size of a file once it is encoded: four characters for three bytes, rounded up, and bounded
/// by the largest number before it is divided.
pub open spec fn encoded_size(size: u64) -> int {
    let four = if size * 4 <= u64::MAX {
        size * 4
    } else {
        u64::MAX as int
    };
    (four + 2) / 3
}

/// The size of a file once it is encoded.
pub fn encoded(size: u64) -> (r: u64)
    ensures
        r == encoded_size(size),
{
    let four: u64 = if size <= u64::MAX / 4 {
        size * 4
    } else {
        u64::MAX
    };
    if four % 3 == 0 {
        four / 3
    } else {
        four / 3 + 1
    }
}

/// The button of a file, where `size` says how long it is.
pub fn attached_label(file: &Attached, size: &str) -> (r: String)
    ensures
        r@ == file.filename@ + " ("@ + size@ + ") ×"@,
{
    let mut out = file.filename.clone();
    out.append(" (");
    out.append(size);
    out.append(") ×");
    out
}

/// What the button of a file says when it is pointed at, where `size` is its encoded size.
pub fn attached_hint(size: &str) -> (r: String)
    ensures
        r@ == size@ + " une fois encodée — cliquer pour retirer"@,
{
    let mut out = size.to_owned();
    out.append(" une fois encodée — cliquer pour retirer");
    out
}

/// What the foot of the window says.
pub open spec fn footer_text(sending: bool, draft: Compose) -> Seq<char> {
    if sending {
        "mise en file…"@
    } else if !compose::sendable(draft) {
        "Au moins un destinataire."@
    } else {
        "Le message est mis en file ; il partira même fenêtre fermée."@
    }
}

/// What the foot of the window says.
pub fn footer(sending: bool, draft: &Compose) -> (r: &'static str)
    ensures
        r@ == footer_text(sending, *draft),
{
    if sending {
        "mise en file…"
    } else if !draft.is_sendable() {
        "Au moins un destinataire."
    } else {
        "Le message est mis en file ; il partira même fenêtre fermée."
    }
}

/// The button can be pressed exactly when the foot announces that the message will be put in the
/// queue.
pub proof fn the_foot_agrees_with_the_button(sending: bool, draft: Compose)
    ensures
        writing::is_ready(sending, draft) <==> footer_text(sending, draft)
            == "Le message est mis en file ; il partira même fenêtre fermée."@,
{
    reveal_strlit("mise en file…");
    reveal_strlit("Au moins un destinataire.");
    reveal_strlit("Le message est mis en file ; il partira même fenêtre fermée.");
    assert("mise en file…"@.len() != "Le message est mis en file ; il partira même fenêtre fermée."@.len());
    assert("Au moins un destinataire."@.len()
        != "Le message est mis en file ; il partira même fenêtre fermée."@.len());
}

/// The lines that a message may be answered with.
#[derive(Debug, Clone, Copy, PartialEq, Eq, Structural)]
pub struct Answers {
    pub reply: bool,
    pub reply_all: bool,
    pub forward: bool,
}

/// Which answers can be given: somebody has to be able to send, and answering everybody wants
/// somebody else.
pub fn answers(can_send: bool, recipients: usize) -> (r: Answers)
    ensures
        r == (Answers {
            reply: can_send,
            reply_all: can_send && recipients > 1,
            forward: can_send,
        }),
{
    Answers { reply: can_send, reply_all: can_send && recipients > 1, forward: can_send }
}

} // verus!
