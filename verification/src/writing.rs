//! Writing a message: the blank page, the reply, the forward, the drafts, and what the window of
//! the message settles after each frame.
use crate::actions;
use crate::actions::Wish;
use crate::compose;
use crate::compose::Compose;
use crate::dto::{Account, Message};
use crate::protocol::Request;
use crate::quote;
use crate::recipients;
use crate::shell;
use crate::shell::{Field, Notices, Panels, Shell, Writing};
use crate::signature;
use crate::signature::{Document, Editor, Outcome};
use crate::text;
use vstd::prelude::*;
use vstd::string::*;

verus! {

broadcast use vstd::std_specs::hash::group_hash_axioms;

// ---------------------------------------------------------------------------------------------
// Who writes
// ---------------------------------------------------------------------------------------------

/// Whether an account can be written from.
pub open spec fn sends(account: Account) -> bool {
    account.can_send && account.enabled
}

/// Whether an account is the one to write from: the first that can send.
pub open spec fn is_sender(accounts: Seq<Account>, i: int) -> bool {
    &&& 0 <= i < accounts.len()
    &&& sends(accounts[i])
    &&& forall|j: int| 0 <= j < i ==> !sends(#[trigger] accounts[j])
}

/// The account to write from, where there is one.
pub open spec fn sender(accounts: Seq<Account>) -> Option<i64> {
    if exists|i: int| is_sender(accounts, i) {
        Some(accounts[choose|i: int| is_sender(accounts, i)].id)
    } else {
        None
    }
}

impl Writing {
    /// The account to write from, where there is one.
    pub fn default_sender(&self) -> (r: Option<i64>)
        ensures
            r == sender(self.accounts@),
            r is Some <==> exists|i: int|
                0 <= i < self.accounts@.len() && sends(#[trigger] self.accounts@[i]),
    {
        let mut i: usize = 0;
        while i < self.accounts.len()
            invariant
                i <= self.accounts.len(),
                forall|j: int| 0 <= j < i ==> !sends(#[trigger] self.accounts@[j]),
            decreases self.accounts.len() - i,
        {
            if self.accounts[i].can_send && self.accounts[i].enabled {
                assert(is_sender(self.accounts@, i as int));
                let ghost k = choose|k: int| is_sender(self.accounts@, k);
                assert(k == i) by {
                    if k < i {
                        assert(!sends(self.accounts@[k]));
                    } else if i < k {
                        assert(!sends(self.accounts@[i as int]));
                    }
                }
                return Some(self.accounts[i].id);
            }
            i = i + 1;
        }
        None
    }
}

// ---------------------------------------------------------------------------------------------
// A new message, a reply, a forward
// ---------------------------------------------------------------------------------------------

/// The interface with nothing but another sentence for the user.
pub open spec fn only_told(pre: Shell, words: Seq<char>, post: Shell) -> bool {
    &&& post == (Shell { notices: Notices { status: post.notices.status, ..pre.notices }, ..pre })
    &&& shell::reads(post.notices.status, words)
}

/// The interface with nothing but another message that is being written.
pub open spec fn only_writes(pre: Shell, post: Shell) -> bool {
    post == (Shell { writing: Writing { compose: post.writing.compose, ..pre.writing }, ..pre })
        && post.writing.compose is Some
}

/// What is said where no account can send.
pub open spec fn nobody_sends() -> Seq<char> {
    "Aucun compte ne peut envoyer."@
}

/// Whether a blank message was opened, or its lack explained.
pub open spec fn compose_started(pre: Shell, post: Shell) -> bool {
    match sender(pre.writing.accounts@) {
        Some(account) => {
            &&& only_writes(pre, post)
            &&& post.writing.compose->0.account == account
            &&& compose::is_blank(post.writing.compose->0)
        },
        None => only_told(
            pre,
            "Aucun compte ne peut envoyer. `mail account submission --account N --host …` pour en configurer un."@,
            post,
        ),
    }
}

/// The address of an entry: what stands between the last `<` and the first `>` behind it, or the
/// whole entry where it has no such part; in either case without the white space around it.
pub open spec fn address_of(entry: Seq<char>) -> Seq<char> {
    let behind = text::split(entry, '<');
    let inside = text::split(behind.last(), '>');
    if behind.len() > 1 && inside.len() > 1 {
        text::trimmed(inside[0])
    } else {
        text::trimmed(entry)
    }
}

/// What tells two addresses apart: the address, without regard to case.
pub open spec fn address_key(entry: Seq<char>) -> Seq<char> {
    text::lowercase(address_of(entry))
}

/// Whether an address, in lower case, is somebody else's: none of our own, nor that of the sender,
/// who is written to already.
pub open spec fn is_other(address: Seq<char>, mine: Seq<Seq<char>>, from: Seq<char>) -> bool {
    &&& !mine.contains(address)
    &&& address != from
}

/// The addresses of the accounts that have one, in lower case.
pub open spec fn own_addresses(accounts: Seq<Account>) -> Seq<Seq<char>>
    decreases accounts.len(),
{
    if accounts.len() == 0 {
        seq![]
    } else {
        let before = own_addresses(accounts.drop_last());
        match accounts.last().address {
            Some(address) => before.push(address_key(address@)),
            None => before,
        }
    }
}

/// The recipients who are somebody else, in order.
pub open spec fn other_recipients(
    to: Seq<String>,
    mine: Seq<Seq<char>>,
    from: Seq<char>,
) -> Seq<String> {
    to.filter(|entry: String| is_other(address_key(entry@), mine, from))
}

/// Who is in copy of a reply: nobody, or everybody else who was written to.
pub open spec fn in_copy(everyone: bool, message: Message, accounts: Seq<Account>) -> Seq<char> {
    if everyone {
        text::joined(
            text::texts(
                other_recipients(
                    message.to@,
                    own_addresses(accounts),
                    address_key(message.row.from@),
                ),
            ),
            ", "@,
        )
    } else {
        ""@
    }
}

/// The thread that a reply continues, as the headers of the message give it.
pub struct Threading {
    pub in_reply_to: Option<String>,
    pub references: Vec<String>,
}

/// Whether a reply to the open message was started, or its lack explained.
pub open spec fn reply_started(
    pre: Shell,
    everyone: bool,
    threading: Threading,
    subject: String,
    post: Shell,
) -> bool {
    match pre.reader.message {
        None => post == pre,
        Some(message) => match sender(pre.writing.accounts@) {
            None => only_told(pre, nobody_sends(), post),
            Some(account) => {
                let it = post.writing.compose->0;
                &&& only_writes(pre, post)
                &&& it.account == account
                &&& it.to@ == message.row.from@
                &&& it.cc@ == in_copy(everyone, message, pre.writing.accounts@)
                &&& it.bcc@ == ""@
                &&& it.subject == subject
                &&& it.text@ == quote::quoted_text(message)
                &&& it.in_reply_to == threading.in_reply_to
                &&& it.references == threading.references
                &&& it.attachments@.len() == 0
                &&& it.sign
                &&& it.draft is None
            },
        },
    }
}

/// The subject of a forward, where `lowered` is the lower case of the subject: marked once.
pub open spec fn forward_subject(subject: Seq<char>, lowered: Seq<char>) -> Seq<char> {
    if text::starts(lowered, "tr:"@) {
        subject
    } else {
        "Tr: "@ + subject
    }
}

/// The requests for the files of a message that is forwarded, each by its rank.
pub open spec fn stage_asks(message: Message) -> Seq<Request> {
    Seq::new(
        message.attachments@.len(),
        |part: int| Request::StagePart { id: message.row.id, part: part as usize },
    )
}

/// Whether a forward of the open message was started, or its lack explained. A forward is not
/// part of the thread; the files of the message are taken up again in the background.
pub open spec fn forward_started(pre: Shell, post: Shell) -> bool {
    match pre.reader.message {
        None => post == pre,
        Some(message) => match sender(pre.writing.accounts@) {
            None => only_told(pre, nobody_sends(), post),
            Some(account) => {
                let it = post.writing.compose->0;
                let n = message.attachments@.len();
                &&& post == (Shell {
                    writing: Writing { compose: post.writing.compose, ..pre.writing },
                    notices: Notices { status: post.notices.status, ..pre.notices },
                    ..pre
                })
                &&& post.writing.compose is Some
                &&& it.account == account
                &&& it.to@ == ""@
                &&& it.cc@ == ""@
                &&& it.bcc@ == ""@
                &&& it.subject@ == forward_subject(
                    message.row.subject@,
                    text::lowercase(message.row.subject@),
                )
                &&& it.text@ == quote::forwarded_text(message)
                &&& it.in_reply_to is None
                &&& it.references@.len() == 0
                &&& it.attachments@.len() == 0
                &&& it.sign
                &&& it.draft is None
                &&& if n > 0 {
                    shell::reads(
                        post.notices.status,
                        "Transfert : reprise de "@ + text::dec(n)
                            + " pièce(s) jointe(s) en cours…"@,
                    )
                } else {
                    post.notices.status == pre.notices.status
                }
            },
        },
    }
}

/// What is asked for when a forward is started.
pub open spec fn forward_asks(pre: Shell) -> Seq<Request> {
    match pre.reader.message {
        Some(message) if sender(pre.writing.accounts@) is Some => stage_asks(message),
        _ => seq![],
    }
}

/// Whether an account has an address, whatever its case.
pub open spec fn is_at(account: Account, address: Seq<char>) -> bool {
    account.address matches Some(own) && address_key(own@) == address
}

/// One's own addresses are those of the accounts, and no others.
pub proof fn lemma_own_addresses(accounts: Seq<Account>, address: Seq<char>)
    ensures
        own_addresses(accounts).contains(address) <==> exists|k: int|
            0 <= k < accounts.len() && is_at(#[trigger] accounts[k], address),
    decreases accounts.len(),
{
    if accounts.len() > 0 {
        let short = accounts.drop_last();
        let before = own_addresses(short);
        let now = own_addresses(accounts);
        lemma_own_addresses(short, address);
        if now.contains(address) {
            let i = choose|i: int| 0 <= i < now.len() && now[i] == address;
            if i < before.len() {
                assert(before[i] == address);
                assert(before.contains(address));
                let k = choose|k: int| 0 <= k < short.len() && is_at(#[trigger] short[k], address);
                assert(is_at(accounts[k], address));
            } else {
                assert(is_at(accounts[accounts.len() - 1], address));
            }
        }
        if exists|k: int| 0 <= k < accounts.len() && is_at(#[trigger] accounts[k], address) {
            let k = choose|k: int|
                0 <= k < accounts.len() && is_at(#[trigger] accounts[k], address);
            if k < short.len() {
                assert(is_at(short[k], address));
                let i = choose|i: int| 0 <= i < before.len() && before[i] == address;
                assert(now[i] == address);
            } else {
                assert(now[now.len() - 1] == address);
            }
        }
    }
}

/// A recipient is kept exactly where the address is somebody else's.
proof fn lemma_other_recipients(
    to: Seq<String>,
    mine: Seq<Seq<char>>,
    from: Seq<char>,
    entry: String,
)
    ensures
        other_recipients(to, mine, from).contains(entry) <==> to.contains(entry) && is_other(
            address_key(entry@),
            mine,
            from,
        ),
    decreases to.len(),
{
    reveal(Seq::filter);
    if to.len() > 0 {
        let short = to.drop_last();
        let before = other_recipients(short, mine, from);
        let now = other_recipients(to, mine, from);
        lemma_other_recipients(short, mine, from, entry);
        assert(to == short.push(to.last()));
        if now.contains(entry) {
            let i = choose|i: int| 0 <= i < now.len() && now[i] == entry;
            if i < before.len() {
                assert(before[i] == entry);
                let k = choose|k: int| 0 <= k < short.len() && short[k] == entry;
                assert(to[k] == entry);
            } else {
                assert(to[to.len() - 1] == entry);
            }
        }
        if to.contains(entry) && is_other(address_key(entry@), mine, from) {
            let k = choose|k: int| 0 <= k < to.len() && to[k] == entry;
            if k < short.len() {
                assert(short[k] == entry);
                let i = choose|i: int| 0 <= i < before.len() && before[i] == entry;
                assert(now[i] == entry);
            } else {
                assert(now[now.len() - 1] == entry);
            }
        }
    }
}

/// Neither one's own addresses nor the sender's are in copy of a reply to everybody, in any case of
/// letters, and nobody is who was not written to.
pub proof fn one_is_never_in_copy_of_ones_own_reply(
    to: Seq<String>,
    accounts: Seq<Account>,
    from: Seq<char>,
    entry: String,
)
    requires
        other_recipients(to, own_addresses(accounts), address_key(from)).contains(entry),
    ensures
        to.contains(entry),
        address_key(entry@) != address_key(from),
        forall|k: int|
            0 <= k < accounts.len() ==> !is_at(#[trigger] accounts[k], address_key(entry@)),
{
    lemma_other_recipients(to, own_addresses(accounts), address_key(from), entry);
    lemma_own_addresses(accounts, address_key(entry@));
}

/// Everybody else is in copy of a reply to everybody: every recipient whose address is neither that
/// of an account nor the sender's.
pub proof fn everybody_else_is_in_copy(
    to: Seq<String>,
    accounts: Seq<Account>,
    from: Seq<char>,
    entry: String,
)
    requires
        to.contains(entry),
        address_key(entry@) != address_key(from),
        forall|k: int|
            0 <= k < accounts.len() ==> !is_at(#[trigger] accounts[k], address_key(entry@)),
    ensures
        other_recipients(to, own_addresses(accounts), address_key(from)).contains(entry),
{
    lemma_other_recipients(to, own_addresses(accounts), address_key(from), entry);
    lemma_own_addresses(accounts, address_key(entry@));
}

/// The address of an entry, without its name.
pub fn address(entry: &str) -> (r: String)
    ensures
        r@ == address_of(entry@),
{
    let behind = text::split_at(entry, '<');
    let n: usize = behind.len();
    if n > 1 {
        assert(text::texts(behind@).last() == behind@[n - 1]@);
        let inside = text::split_at(behind[n - 1].as_str(), '>');
        if inside.len() > 1 {
            assert(text::texts(inside@)[0] == inside@[0]@);
            return text::trim(inside[0].as_str());
        }
    }
    text::trim(entry)
}

fn lowered_address(entry: &str) -> (r: String)
    ensures
        r@ == address_key(entry@),
{
    text::to_lowercase(address(entry).as_str())
}

/// Whether an address, in lower case, is somebody else's.
pub fn other(address: &str, mine: &Vec<String>, from: &str) -> (r: bool)
    ensures
        r == is_other(address@, text::texts(mine@), from@),
{
    let mut i: usize = 0;
    while i < mine.len()
        invariant
            i <= mine.len(),
            forall|j: int| 0 <= j < i ==> #[trigger] text::texts(mine@)[j] != address@,
        decreases mine.len() - i,
    {
        if text::same(address, mine[i].as_str()) {
            assert(text::texts(mine@)[i as int] == address@);
            return false;
        }
        i = i + 1;
    }
    !text::same(address, from)
}

/// The subject of a forward, where `lowered` is the lower case of the subject.
pub fn forwarded_subject(subject: &str, lowered: &str) -> (r: String)
    ensures
        r@ == forward_subject(subject@, lowered@),
{
    if text::starts_with(lowered, "tr:") {
        subject.to_owned()
    } else {
        let mut out = "Tr: ".to_owned();
        out.append(subject);
        out
    }
}

fn lowered_addresses(accounts: &Vec<Account>) -> (r: Vec<String>)
    ensures
        text::texts(r@) == own_addresses(accounts@),
{
    let mut mine: Vec<String> = Vec::new();
    let mut i: usize = 0;
    assert(accounts@.take(0) == Seq::<Account>::empty());
    while i < accounts.len()
        invariant
            i <= accounts.len(),
            text::texts(mine@) == own_addresses(accounts@.take(i as int)),
        decreases accounts.len() - i,
    {
        let ghost before = mine@;
        assert(accounts@.take(i + 1).drop_last() == accounts@.take(i as int));
        match &accounts[i].address {
            Some(address) => {
                mine.push(lowered_address(address.as_str()));
                assert(text::texts(mine@) == text::texts(before).push(address_key(address@)));
            },
            None => {},
        }
        i = i + 1;
    }
    assert(accounts@.take(accounts.len() as int) == accounts@);
    mine
}

fn copied_to(message: &Message, accounts: &Vec<Account>) -> (r: String)
    ensures
        r@ == in_copy(true, *message, accounts@),
{
    let mine = lowered_addresses(accounts);
    let from = lowered_address(message.row.from.as_str());
    let ghost keep = |entry: String| is_other(address_key(entry@), text::texts(mine@), from@);
    let mut others: Vec<String> = Vec::new();
    let mut i: usize = 0;
    while i < message.to.len()
        invariant
            i <= message.to.len(),
            keep == (|entry: String| is_other(address_key(entry@), text::texts(mine@), from@)),
            others@ == message.to@.take(i as int).filter(keep),
        decreases message.to.len() - i,
    {
        proof {
            assert(message.to@.take(i + 1).drop_last() == message.to@.take(i as int));
            assert(message.to@.take(i + 1).last() == message.to@[i as int]);
            reveal(Seq::filter);
        }
        let lowered = lowered_address(message.to[i].as_str());
        if other(lowered.as_str(), &mine, from.as_str()) {
            others.push(message.to[i].clone());
        }
        i = i + 1;
    }
    assert(message.to@.take(message.to.len() as int) == message.to@);
    text::join(&others, ", ")
}

impl Shell {
    /// Opens a blank message.
    pub fn start_compose(&mut self)
        ensures
            compose_started(*old(self), *final(self)),
    {
        match self.writing.default_sender() {
            Some(account) => {
                let mut blank = Compose::default();
                blank.account = account;
                self.writing.compose = Some(blank);
            },
            None => {
                self.notices.status = Some(
                    "Aucun compte ne peut envoyer. `mail account submission --account N --host …` pour en configurer un.".to_owned(),
                );
            },
        }
    }

    /// Opens a reply to the open message, to its sender or to everybody. The thread and the
    /// subject are those of a reply to it.
    pub fn start_reply(&mut self, everyone: bool, threading: Threading, subject: String)
        ensures
            reply_started(*old(self), everyone, threading, subject, *final(self)),
    {
        let account = self.writing.default_sender();
        match &self.reader.message {
            None => {},
            Some(message) => match account {
                None => {
                    self.notices.status = Some("Aucun compte ne peut envoyer.".to_owned());
                },
                Some(account) => {
                    let cc = if everyone {
                        copied_to(message, &self.writing.accounts)
                    } else {
                        "".to_owned()
                    };
                    let mut it = Compose::default();
                    it.account = account;
                    it.to = message.row.from.clone();
                    it.cc = cc;
                    it.subject = subject;
                    it.text = quote::quoted(message);
                    it.in_reply_to = threading.in_reply_to;
                    it.references = threading.references;
                    self.writing.compose = Some(it);
                },
            },
        }
    }

    /// Opens a forward of the open message, and asks for its files.
    pub fn start_forward(&mut self, out: &mut Vec<Request>)
        ensures
            forward_started(*old(self), *final(self)),
            final(out)@ == old(out)@ + forward_asks(*old(self)),
    {
        let account = self.writing.default_sender();
        match &self.reader.message {
            None => {},
            Some(message) => match account {
                None => {
                    self.notices.status = Some("Aucun compte ne peut envoyer.".to_owned());
                },
                Some(account) => {
                    let lowered = text::to_lowercase(message.row.subject.as_str());
                    let subject = forwarded_subject(
                        message.row.subject.as_str(),
                        lowered.as_str(),
                    );
                    let n: usize = message.attachments.len();
                    let ghost before = out@;
                    let mut part: usize = 0;
                    while part < n
                        invariant
                            part <= n,
                            n == message.attachments@.len(),
                            out@ == before + stage_asks(*message).take(part as int),
                        decreases n - part,
                    {
                        out.push(Request::StagePart { id: message.row.id, part });
                        part = part + 1;
                        assert(stage_asks(*message).take(part as int) == stage_asks(*message).take(
                            part - 1,
                        ).push(stage_asks(*message)[part - 1]));
                    }
                    assert(stage_asks(*message).take(n as int) == stage_asks(*message));
                    let mut it = Compose::default();
                    it.account = account;
                    it.subject = subject;
                    it.text = quote::forwarded(message);
                    if n > 0 {
                        let mut said = "Transfert : reprise de ".to_owned();
                        said.append(text::decimal_usize(n).as_str());
                        said.append(" pièce(s) jointe(s) en cours…");
                        self.notices.status = Some(said);
                    }
                    self.writing.compose = Some(it);
                },
            },
        }
    }
}

// ---------------------------------------------------------------------------------------------
// Gestures on the open message
// ---------------------------------------------------------------------------------------------

/// A gesture on the open message.
#[derive(Debug, Clone, Copy, PartialEq, Eq, Structural)]
pub enum Answer {
    /// Reply to the sender alone.
    Sender,
    /// Reply to the sender, with the other recipients in copy.
    Everyone,
    /// Send it on to somebody else.
    Forward,
    /// Look at its bytes.
    Source,
}

/// What a gesture on the open message changes.
pub open spec fn answered(
    pre: Shell,
    answer: Answer,
    threading: Threading,
    subject: String,
    post: Shell,
) -> bool {
    match answer {
        Answer::Sender => reply_started(pre, false, threading, subject, post),
        Answer::Everyone => reply_started(pre, true, threading, subject, post),
        Answer::Forward => forward_started(pre, post),
        Answer::Source => actions::source_shown(pre, post),
    }
}

/// What a gesture on the open message asks for.
pub open spec fn answer_asks(pre: Shell, answer: Answer) -> Seq<Request> {
    match answer {
        Answer::Sender => seq![],
        Answer::Everyone => seq![],
        Answer::Forward => forward_asks(pre),
        Answer::Source => actions::source_asks(pre),
    }
}

impl Shell {
    /// Makes a gesture on the open message. The thread and the subject are those of a reply to
    /// it.
    pub fn answer(
        &mut self,
        answer: Answer,
        threading: Threading,
        subject: String,
        out: &mut Vec<Request>,
    )
        ensures
            answered(*old(self), answer, threading, subject, *final(self)),
            final(out)@ == old(out)@ + answer_asks(*old(self), answer),
    {
        assert(out@ + Seq::<Request>::empty() == out@);
        match answer {
            Answer::Sender => {
                self.start_reply(false, threading, subject);
            },
            Answer::Everyone => {
                self.start_reply(true, threading, subject);
            },
            Answer::Forward => {
                self.start_forward(out);
            },
            Answer::Source => {
                self.show_source(out);
            },
        }
    }
}

// ---------------------------------------------------------------------------------------------
// Drafts
// ---------------------------------------------------------------------------------------------

/// Whether a draft was opened: the message is as it was typed, under the same number. What was
/// being written is kept first.
pub open spec fn draft_opened(pre: Shell, rank: int, post: Shell) -> bool {
    if rank < pre.writing.drafts@.len() {
        &&& post == (Shell {
            writing: Writing { compose: post.writing.compose, ..pre.writing },
            panels: Panels { show_drafts: false, ..pre.panels },
            ..pre
        })
        &&& post.writing.compose matches Some(it)
        &&& compose::same_compose(it, compose::of_draft(pre.writing.drafts@[rank]))
    } else {
        post == pre
    }
}

/// What is asked for when a draft is opened.
pub open spec fn draft_open_asks(pre: Shell, rank: int) -> Seq<Wish> {
    match pre.writing.compose {
        Some(current) if rank < pre.writing.drafts@.len() => seq![Wish::Save(current)],
        _ => seq![],
    }
}

/// The interface once a draft was thrown away: if it is the one that is open, its window is no
/// longer tied to it.
pub open spec fn draft_deleted(pre: Shell, rank: int) -> Shell {
    if rank < pre.writing.drafts@.len() && pre.writing.drafts@[rank].id is Some {
        Shell {
            writing: Writing {
                compose: match pre.writing.compose {
                    Some(it) if it.draft == pre.writing.drafts@[rank].id => Some(
                        Compose { draft: None, ..it },
                    ),
                    other => other,
                },
                ..pre.writing
            },
            ..pre
        }
    } else {
        pre
    }
}

/// What is asked for when a draft is thrown away.
pub open spec fn draft_delete_asks(pre: Shell, rank: int) -> Seq<Request> {
    if rank < pre.writing.drafts@.len() {
        match pre.writing.drafts@[rank].id {
            Some(id) => seq![Request::DeleteDraft { id }, Request::Drafts],
            None => seq![],
        }
    } else {
        seq![]
    }
}

impl Shell {
    /// Opens the draft of this rank.
    pub fn open_draft(&mut self, rank: usize, out: &mut Vec<Request>)
        ensures
            draft_opened(*old(self), rank as int, *final(self)),
            actions::asked(old(out)@, final(out)@, draft_open_asks(*old(self), rank as int)),
    {
        if rank < self.writing.drafts.len() {
            match &self.writing.compose {
                Some(current) => {
                    out.push(Request::SaveDraft(Box::new(current.copy())));
                },
                None => {},
            }
            let it = Compose::reopened(&self.writing.drafts[rank]);
            self.writing.compose = Some(it);
            self.panels.show_drafts = false;
        }
        assert(out@.take(old(out)@.len() as int) == old(out)@);
    }

    /// Throws the draft of this rank away.
    pub fn delete_draft(&mut self, rank: usize, out: &mut Vec<Request>)
        ensures
            *final(self) == draft_deleted(*old(self), rank as int),
            final(out)@ == old(out)@ + draft_delete_asks(*old(self), rank as int),
    {
        if rank < self.writing.drafts.len() {
            match self.writing.drafts[rank].id {
                Some(id) => {
                    match &mut self.writing.compose {
                        Some(it) => {
                            let same = match it.draft {
                                Some(draft) => draft == id,
                                None => false,
                            };
                            if same {
                                it.draft = None;
                            }
                        },
                        None => {},
                    }
                    out.push(Request::DeleteDraft { id });
                    out.push(Request::Drafts);
                },
                None => {},
            }
        }
    }
}

// ---------------------------------------------------------------------------------------------
// Completion
// ---------------------------------------------------------------------------------------------

/// A field of a message.
pub open spec fn field_of(it: Compose, field: Field) -> Seq<char> {
    match field {
        Field::To => it.to@,
        Field::Cc => it.cc@,
        Field::Bcc => it.bcc@,
    }
}

/// Whether a proposal was put in its field, in place of what was being typed there.
pub open spec fn inserted(pre: Compose, field: Field, chosen: Seq<char>, post: Compose) -> bool {
    &&& field_of(post, field) == recipients::replaced(field_of(pre, field), chosen)
    &&& match field {
        Field::To => post == (Compose { to: post.to, ..pre }),
        Field::Cc => post == (Compose { cc: post.cc, ..pre }),
        Field::Bcc => post == (Compose { bcc: post.bcc, ..pre }),
    }
}

/// Whether other proposals are wanted: for another field, or for another beginning.
pub open spec fn completes(pre: Writing, field: Field, typed: Seq<char>) -> bool {
    pre.suggesting != Some(field) || pre.suggest_for@ != recipients::fragment_of(typed)
}

/// The token after this one.
pub open spec fn next_token(token: u64) -> u64 {
    if token == u64::MAX {
        0
    } else {
        (token + 1) as u64
    }
}

/// Whether the completion is settled: a proposal that was clicked is put in its field; otherwise
/// the field that has the focus gets proposals, once for each beginning; without a focus there
/// are none.
pub open spec fn completion_settled(
    pre: Writing,
    before: Compose,
    active: Option<(Field, String)>,
    insert: Option<(Field, String)>,
    post: Writing,
    after: Compose,
) -> bool {
    match insert {
        Some((field, chosen)) => {
            &&& inserted(before, field, chosen@, after)
            &&& post == (Writing {
                suggestions: post.suggestions,
                suggesting: None,
                suggest_for: post.suggest_for,
                ..pre
            })
            &&& post.suggestions@.len() == 0
            &&& post.suggest_for@ == ""@
        },
        None => {
            &&& after == before
            &&& match active {
                Some((field, typed)) => if completes(pre, field, typed@) {
                    &&& post == (Writing {
                        suggesting: Some(field),
                        suggest_for: post.suggest_for,
                        suggest_token: next_token(pre.suggest_token),
                        ..pre
                    })
                    &&& post.suggest_for@ == recipients::fragment_of(typed@)
                } else {
                    post == pre
                },
                None => {
                    &&& post == (Writing {
                        suggestions: post.suggestions,
                        suggesting: None,
                        ..pre
                    })
                    &&& post.suggestions@.len() == 0
                },
            }
        },
    }
}

/// What is asked for when the completion is settled.
pub open spec fn completion_asks(
    pre: Writing,
    active: Option<(Field, String)>,
    insert: Option<(Field, String)>,
) -> Seq<Wish> {
    match (insert, active) {
        (None, Some((field, typed))) if completes(pre, field, typed@) => seq![
            Wish::Complete(recipients::fragment_of(typed@), next_token(pre.suggest_token)),
        ],
        _ => seq![],
    }
}

impl Writing {
    /// Settles the completion of a frame.
    pub fn settle_completion(
        &mut self,
        draft: &mut Compose,
        active: Option<(Field, String)>,
        insert: Option<(Field, String)>,
        out: &mut Vec<Request>,
    )
        ensures
            completion_settled(*old(self), *old(draft), active, insert, *final(self), *final(draft)),
            actions::asked(old(out)@, final(out)@, completion_asks(*old(self), active, insert)),
    {
        match insert {
            Some((field, chosen)) => {
                match field {
                    Field::To => {
                        draft.to = recipients::replace_last(draft.to.as_str(), chosen.as_str());
                    },
                    Field::Cc => {
                        draft.cc = recipients::replace_last(draft.cc.as_str(), chosen.as_str());
                    },
                    Field::Bcc => {
                        draft.bcc = recipients::replace_last(draft.bcc.as_str(), chosen.as_str());
                    },
                }
                self.suggestions = Vec::new();
                self.suggesting = None;
                self.suggest_for = "".to_owned();
            },
            None => match active {
                Some((field, typed)) => {
                    let fragment = recipients::last_fragment(typed.as_str());
                    let same = match self.suggesting {
                        Some(current) => current == field,
                        None => false,
                    };
                    if !same || !text::same(self.suggest_for.as_str(), fragment.as_str()) {
                        self.suggesting = Some(field);
                        self.suggest_for = fragment.clone();
                        self.suggest_token = if self.suggest_token == u64::MAX {
                            0
                        } else {
                            self.suggest_token + 1
                        };
                        out.push(
                            Request::Complete { prefix: fragment, token: self.suggest_token },
                        );
                    }
                },
                None => {
                    self.suggestions = Vec::new();
                    self.suggesting = None;
                },
            },
        }
        assert(out@.take(old(out)@.len() as int) == old(out)@);
    }
}

// ---------------------------------------------------------------------------------------------
// The window of the message
// ---------------------------------------------------------------------------------------------

/// What the window of the message took note of while it was drawn.
pub struct Pending {
    /// The field that has the focus, and what it holds.
    pub active: Option<(Field, String)>,
    /// A proposal that was clicked, for its field.
    pub insert: Option<(Field, String)>,
    /// The rank of a file to take off.
    pub detach: Option<usize>,
    /// The user wants to send.
    pub send: bool,
    /// The user wants to change the signature.
    pub edit_signature: bool,
    /// The files that were dropped on the window.
    pub dropped: Vec<String>,
}

/// Whether the sending button can be pressed: somebody is written to, and no message is on its
/// way already.
pub open spec fn is_ready(sending: bool, draft: Compose) -> bool {
    compose::sendable(draft) && !sending
}

/// Whether a frame sends the message.
pub open spec fn sends_now(pre: Writing, draft: Compose, pending: Pending) -> bool {
    pending.send && is_ready(pre.sending, draft)
}

/// Whether a file was taken off the message, where it has one of that rank.
pub open spec fn detached(pre: Compose, rank: Option<usize>, post: Compose) -> bool {
    &&& post == (Compose { attachments: post.attachments, ..pre })
    &&& match rank {
        Some(rank) if rank < pre.attachments@.len() => post.attachments@
            == pre.attachments@.remove(rank as int),
        _ => post.attachments@ == pre.attachments@,
    }
}

/// The requests for the files that were dropped.
pub open spec fn drop_asks(dropped: Seq<String>) -> Seq<Wish> {
    Seq::new(dropped.len(), |i: int| Wish::Exactly(Request::Attach { path: dropped[i] }))
}

/// Whether the editor of the signature was opened, where it was wanted and is not open: on the
/// signature that is known.
pub open spec fn editor_opened(pre: Writing, account: i64, wanted: bool, post: Option<Editor>) -> bool {
    if wanted && pre.editor is None {
        let known = if pre.signatures@.dom().contains(account) {
            pre.signatures@[account]
        } else {
            None
        };
        &&& post matches Some(editor)
        &&& editor.account == account
        &&& !editor.saving
        &&& editor.selection is None
        &&& editor.target@.len() == 0
        &&& editor.buffer@ == editor.document.text@
        &&& match known {
            Some(document) => signature::same_document(editor.document, document),
            None => editor.document.text@.len() == 0 && editor.document.spans@.len() == 0
                && editor.document.blocks@.len() == 0,
        }
    } else {
        post == pre.editor
    }
}

/// Whether the user is told of the files that were dropped: of the last one.
pub open spec fn drop_told(pre: Option<String>, dropped: Seq<String>, post: Option<String>) -> bool {
    if dropped.len() == 0 {
        post == pre
    } else {
        shell::reads(post, dropped.last()@ + " : rangement en cours…"@)
    }
}

/// Whether the window of the message was settled after a frame, on a message without the file
/// that was taken off, and with the proposal that was clicked.
pub open spec fn compose_settled(
    pre: Shell,
    draft: Compose,
    pending: Pending,
    open: bool,
    post: Shell,
    lighter: Compose,
    written: Compose,
    completed: Writing,
) -> bool {
    let sent = sends_now(pre.writing, lighter, pending);
    &&& detached(draft, pending.detach, lighter)
    &&& completion_settled(
        pre.writing,
        lighter,
        pending.active,
        pending.insert,
        completed,
        written,
    )
    &&& post == (Shell {
        writing: Writing {
            compose: if open {
                Some(written)
            } else {
                None
            },
            sending: pre.writing.sending || sent,
            editor: post.writing.editor,
            ..completed
        },
        notices: Notices { status: post.notices.status, ..pre.notices },
        ..pre
    })
    &&& editor_opened(pre.writing, draft.account, pending.edit_signature, post.writing.editor)
    &&& drop_told(pre.notices.status, pending.dropped@, post.notices.status)
}

/// What is asked for when the window of the message is settled: the files first, then the
/// sending, the proposals, and, for a window that closes on a message that is not sent, its draft.
pub open spec fn compose_asks(
    pre: Shell,
    pending: Pending,
    open: bool,
    lighter: Compose,
    written: Compose,
) -> Seq<Wish> {
    let sent = sends_now(pre.writing, lighter, pending);
    drop_asks(pending.dropped@) + (if sent {
        seq![Wish::Send(lighter)]
    } else {
        seq![]
    }) + completion_asks(pre.writing, pending.active, pending.insert) + (if !open && !sent {
        seq![Wish::Save(written)]
    } else {
        seq![]
    })
}

/// Whether the window of a message was prepared: the signature of its account is known, or
/// awaited and meanwhile none.
pub open spec fn prepared(pre: Shell, account: i64, post: Shell) -> bool {
    &&& post == (Shell {
        writing: Writing { signatures: post.writing.signatures, ..pre.writing },
        ..pre
    })
    &&& if pre.writing.signatures@.dom().contains(account) {
        post.writing.signatures == pre.writing.signatures
    } else {
        post.writing.signatures@ == pre.writing.signatures@.insert(account, None)
    }
}

/// What is asked for when the window of a message is prepared.
pub open spec fn prepare_asks(pre: Shell, account: i64) -> Seq<Request> {
    if pre.writing.signatures@.dom().contains(account) {
        seq![]
    } else {
        seq![Request::Signature { account }]
    }
}

impl Shell {
    /// Whether the sending button can be pressed.
    pub fn ready(&self, draft: &Compose) -> (r: bool)
        ensures
            r == is_ready(self.writing.sending, *draft),
    {
        draft.is_sendable() && !self.writing.sending
    }

    /// Prepares the window of the message, where it is open: asks for the signature of the
    /// account, once.
    pub fn prepare_compose(&mut self, account: i64, out: &mut Vec<Request>)
        ensures
            prepared(*old(self), account, *final(self)),
            final(out)@ == old(out)@ + prepare_asks(*old(self), account),
    {
        if !self.writing.signatures.contains_key(&account) {
            self.writing.signatures.insert(account, None);
            out.push(Request::Signature { account });
        }
    }

    /// Opens the editor of the signature, where it is not open.
    fn edit_signature(&mut self, account: i64, wanted: bool)
        ensures
            *final(self) == (Shell {
                writing: Writing { editor: final(self).writing.editor, ..old(self).writing },
                ..*old(self)
            }),
            editor_opened(old(self).writing, account, wanted, final(self).writing.editor),
    {
        if wanted && self.writing.editor.is_none() {
            let known: Option<Document> = match self.writing.signatures.get(&account) {
                Some(Some(document)) => Some(document.copy()),
                _ => None,
            };
            self.writing.editor = Some(Editor::new(account, known));
        }
    }

    /// Asks for the files that were dropped, and says so.
    fn attach_dropped(&mut self, dropped: &Vec<String>, out: &mut Vec<Request>)
        ensures
            *final(self) == (Shell {
                notices: Notices { status: final(self).notices.status, ..old(self).notices },
                ..*old(self)
            }),
            drop_told(old(self).notices.status, dropped@, final(self).notices.status),
            actions::asked(old(out)@, final(out)@, drop_asks(dropped@)),
    {
        let mut i: usize = 0;
        assert(out@.take(old(out)@.len() as int) == old(out)@);
        while i < dropped.len()
            invariant
                i <= dropped.len(),
                *self == (Shell {
                    notices: Notices { status: self.notices.status, ..old(self).notices },
                    ..*old(self)
                }),
                drop_told(old(self).notices.status, dropped@.take(i as int), self.notices.status),
                actions::asked(old(out)@, out@, drop_asks(dropped@).take(i as int)),
            decreases dropped.len() - i,
        {
            let ghost so_far = out@;
            let mut said = dropped[i].clone();
            said.append(" : rangement en cours…");
            self.notices.status = Some(said);
            out.push(Request::Attach { path: dropped[i].clone() });
            proof {
                let wishes = drop_asks(dropped@);
                assert(wishes.take(i + 1) == wishes.take(i as int).push(wishes[i as int]));
                assert(out@.take(old(out)@.len() as int) == so_far.take(old(out)@.len() as int));
                assert(dropped@.take(i + 1).last() == dropped@[i as int]);
                assert forall|k: int| 0 <= k < i + 1 implies actions::grants(
                    #[trigger] out@[old(out)@.len() + k],
                    wishes.take(i + 1)[k],
                ) by {
                    if k < i {
                        assert(actions::grants(so_far[old(out)@.len() + k], wishes.take(i as int)[k]));
                    }
                }
            }
            i = i + 1;
        }
        assert(dropped@.take(dropped.len() as int) == dropped@);
        assert(drop_asks(dropped@).take(dropped.len() as int) == drop_asks(dropped@));
    }

    /// Settles the window of the message after a frame. Closing it keeps what was typed as a
    /// draft, unless it was sent.
    pub fn settle_compose(
        &mut self,
        draft: Compose,
        pending: Pending,
        open: bool,
        out: &mut Vec<Request>,
    )
        ensures
            exists|lighter: Compose, written: Compose, completed: Writing|
                #[trigger] compose_settled(
                    *old(self),
                    draft,
                    pending,
                    open,
                    *final(self),
                    lighter,
                    written,
                    completed,
                ) && actions::asked(
                    old(out)@,
                    final(out)@,
                    compose_asks(*old(self), pending, open, lighter, written),
                ),
    {
        let ghost original = draft;
        let ghost start = out@;
        let mut draft = draft;
        let account: i64 = draft.account;
        match pending.detach {
            Some(rank) => {
                if rank < draft.attachments.len() {
                    draft.attachments.remove(rank);
                }
            },
            None => {},
        }
        let ghost lighter = draft;
        assert(detached(original, pending.detach, lighter));
        self.attach_dropped(&pending.dropped, out);
        let ghost attached = out@;
        self.edit_signature(account, pending.edit_signature);
        let send = pending.send && self.ready(&draft);
        let ghost sent_wish: Seq<Wish> = if send {
            seq![Wish::Send(lighter)]
        } else {
            seq![]
        };
        if send {
            out.push(Request::Send(Box::new(draft.copy())));
        }
        let ghost sent = out@;
        assert(sent.take(attached.len() as int) == attached);
        assert(actions::asked(attached, sent, sent_wish));
        let ghost writing_before = self.writing;
        self.writing.settle_completion(&mut draft, pending.active, pending.insert, out);
        let ghost written = draft;
        let ghost completed_after = self.writing;
        let ghost completed = out@;
        if send {
            self.writing.sending = true;
        }
        let ghost saved_wish: Seq<Wish> = if !open && !send {
            seq![Wish::Save(written)]
        } else {
            seq![]
        };
        if open {
            self.writing.compose = Some(draft);
        } else {
            if !send {
                out.push(Request::SaveDraft(Box::new(draft.copy())));
            }
            self.writing.compose = None;
        }
        proof {
            assert(out@.take(completed.len() as int) == completed);
            assert(actions::asked(completed, out@, saved_wish));
            let wished = completion_asks(old(self).writing, pending.active, pending.insert);
            assert(wished == completion_asks(writing_before, pending.active, pending.insert));
            actions::lemma_asked_more(start, attached, sent, drop_asks(pending.dropped@), sent_wish);
            actions::lemma_asked_more(
                start,
                sent,
                completed,
                drop_asks(pending.dropped@) + sent_wish,
                wished,
            );
            actions::lemma_asked_more(
                start,
                completed,
                out@,
                drop_asks(pending.dropped@) + sent_wish + wished,
                saved_wish,
            );
            let bare = Writing { editor: old(self).writing.editor, ..completed_after };
            assert(compose_settled(
                *old(self),
                original,
                pending,
                open,
                *self,
                lighter,
                written,
                bare,
            ));
        }
    }
}

/// While a message is on its way to the queue, no gesture in its window sends another; and one
/// that sends puts it on its way.
pub proof fn a_message_is_sent_once(
    pre: Shell,
    draft: Compose,
    pending: Pending,
    open: bool,
    post: Shell,
    lighter: Compose,
    written: Compose,
    completed: Writing,
    next: Compose,
    again: Pending,
)
    requires
        compose_settled(pre, draft, pending, open, post, lighter, written, completed),
        sends_now(pre.writing, lighter, pending),
    ensures
        !sends_now(post.writing, next, again),
{
}

/// A window that closes keeps the message as it stood, or it was sent.
pub proof fn closing_keeps_what_was_typed(
    pre: Shell,
    pending: Pending,
    lighter: Compose,
    written: Compose,
)
    ensures
        sends_now(pre.writing, lighter, pending) || compose_asks(
            pre,
            pending,
            false,
            lighter,
            written,
        ).last() == Wish::Save(written),
{
}

// ---------------------------------------------------------------------------------------------
// The window of the signature
// ---------------------------------------------------------------------------------------------

impl Shell {
    /// Takes the editor back from its window, with what was decided. The window stays open until
    /// the store has answered.
    pub fn settle_signature(
        &mut self,
        editor: Editor,
        outcome: Outcome,
        open: bool,
        out: &mut Vec<Request>,
    )
        ensures
            *final(self) == (Shell {
                writing: Writing {
                    editor: match outcome {
                        Outcome::Save => Some(Editor { saving: true, ..editor }),
                        Outcome::Cancel => None,
                        Outcome::Idle => if open {
                            Some(editor)
                        } else {
                            None
                        },
                    },
                    ..old(self).writing
                },
                ..*old(self)
            }),
            actions::asked(
                old(out)@,
                final(out)@,
                if outcome is Save {
                    seq![Wish::Sign(editor.account, editor.document)]
                } else {
                    seq![]
                },
            ),
    {
        let mut editor = editor;
        match outcome {
            Outcome::Save => {
                editor.saving = true;
                out.push(
                    Request::SetSignature {
                        account: editor.account,
                        signature: Some(editor.document.copy()),
                    },
                );
                self.writing.editor = Some(editor);
            },
            Outcome::Cancel => {
                self.writing.editor = None;
            },
            Outcome::Idle => {
                self.writing.editor = if open {
                    Some(editor)
                } else {
                    None
                };
            },
        }
        assert(out@.take(old(out)@.len() as int) == old(out)@);
    }
}

/// The signature of an account is asked for once: the window is drawn many times before the
/// answer, and asks no more.
pub proof fn a_signature_is_asked_for_once(pre: Shell, account: i64, post: Shell)
    requires
        prepared(pre, account, post),
    ensures
        prepare_asks(post, account) == Seq::<Request>::empty(),
{
}

/// The proposals for a beginning are asked for once: while the same field holds the same
/// beginning, nothing more is asked for.
pub proof fn a_beginning_is_asked_for_once(
    pre: Writing,
    before: Compose,
    field: Field,
    typed: String,
    post: Writing,
    after: Compose,
    again: String,
)
    requires
        completion_settled(pre, before, Some((field, typed)), None, post, after),
        recipients::fragment_of(again@) == recipients::fragment_of(typed@),
    ensures
        completion_asks(post, Some((field, again)), None) == Seq::<Wish>::empty(),
        after == before,
{
}

/// Opening a draft over a message that is being written keeps that message first.
pub proof fn opening_a_draft_keeps_what_was_being_written(
    pre: Shell,
    current: Compose,
    rank: int,
    post: Shell,
)
    requires
        0 <= rank < pre.writing.drafts@.len(),
        pre.writing.compose == Some(current),
        draft_opened(pre, rank, post),
    ensures
        draft_open_asks(pre, rank) == seq![Wish::Save(current)],
        post.writing.compose matches Some(it) && compose::same_compose(
            it,
            compose::of_draft(pre.writing.drafts@[rank]),
        ),
{
}

} // verus!
