//! From a question to its answer: what came is shown where it was asked for, and a failure is told
//! where something waited.
use crate::absorb;
use crate::bench::{Phase, Verdict};
use crate::compose::Compose;
use crate::dto::{
    Account, Attached, Draft, Folder, Hello, Job, MessageSource, Outgoing, Page, Queued, Results,
    Row, Source, Suggestion,
};
use crate::laws::sending;
use crate::protocol;
use crate::protocol::{Answer, Decoded, Decision, Opened, Reply, Request, SourceOf};
use crate::settings;
use crate::settings::AccountDetail;
use crate::shell::Shell;
use crate::signature::Document;
use crate::text;
use crate::worker;
use vstd::prelude::*;
use vstd::string::*;

verus! {

// ---------------------------------------------------------------------------------------------
// What a call brings back
// ---------------------------------------------------------------------------------------------

/// A page comes back with the folder and the cursor that it was asked for, so that it is known
/// when it is late.
pub proof fn a_page_comes_back_with_its_question(
    folder: i64,
    after: Option<String>,
    limit: u32,
    page: Page,
    reply: Reply,
)
    requires
        protocol::served(
            Request::Page { folder, after, limit },
            Answer::Done(Decoded::Page(page)),
            reply,
        ),
    ensures
        reply matches Reply::Page { folder: of, after: behind, page: it } && of == folder && behind
            == after && it == page,
{
}

/// Proposals come back with the token of their question, a source with what it is the source of,
/// and a signature with its account.
pub proof fn an_answer_comes_back_with_its_question(
    prefix: String,
    token: u64,
    found: Vec<Suggestion>,
    of: SourceOf,
    bytes: Option<MessageSource>,
    account: i64,
    written: Option<Document>,
    stored: Option<Document>,
    replies: (Reply, Reply, Reply, Reply),
)
    requires
        protocol::served(
            Request::Complete { prefix, token },
            Answer::Done(Decoded::Suggestions(found)),
            replies.0,
        ),
        protocol::served(
            Request::Source { of },
            Answer::Done(Decoded::Source(bytes)),
            replies.1,
        ),
        protocol::served(
            Request::Signature { account },
            Answer::Done(Decoded::Signature(stored)),
            replies.2,
        ),
        protocol::served(
            Request::SetSignature { account, signature: written },
            Answer::Done(Decoded::Signature(stored)),
            replies.3,
        ),
    ensures
        replies.0 matches Reply::Complete { token: t, found: f } && t == token && f == found,
        replies.1 matches Reply::Source { of: o, found: f } && o == of && f == bytes,
        replies.2 matches Reply::Signature { account: a, found: f } && a == account && f == stored,
        replies.3 matches Reply::Signature { account: a, found: f } && a == account && f == stored,
{
}

/// What a call brings back is handed on as it came: a message, a thread, what a search found, a
/// sending, a draft and the fate of a message that was to be held back.
pub proof fn what_comes_back_is_handed_on(
    id: i64,
    remote_images: bool,
    opened: Option<Opened>,
    rows: Vec<Row>,
    query: String,
    limit: u32,
    found: Results,
    it: Compose,
    queued: Queued,
    draft: Option<Draft>,
    held: bool,
    file: Attached,
    part: usize,
    replies: (Reply, Reply, Reply, Reply, Reply, Reply, Reply),
)
    requires
        protocol::served(
            Request::Open { id, remote_images },
            Answer::Done(Decoded::Message(opened)),
            replies.0,
        ),
        protocol::served(
            Request::Thread { id },
            Answer::Done(Decoded::Thread(rows)),
            replies.1,
        ),
        protocol::served(
            Request::Search { query, limit },
            Answer::Done(Decoded::Results(found)),
            replies.2,
        ),
        protocol::served(
            Request::Send(Box::new(it)),
            Answer::Done(Decoded::Queued(queued)),
            replies.3,
        ),
        protocol::served(
            Request::SaveDraft(Box::new(it)),
            Answer::Done(Decoded::Draft(draft)),
            replies.4,
        ),
        protocol::served(
            Request::Cancel { id },
            Answer::Done(Decoded::Cancelled(held)),
            replies.5,
        ),
        protocol::served(
            Request::StagePart { id, part },
            Answer::Done(Decoded::Attached(file)),
            replies.6,
        ),
    ensures
        replies.0 == Reply::Open(opened),
        replies.1 == Reply::Thread(rows),
        replies.2 == Reply::Search(found),
        replies.3 == Reply::Queued(queued),
        replies.4 matches Reply::Saved(kept) && match draft {
            Some(draft) => kept == draft.id,
            None => kept is None,
        },
        replies.5 == Reply::Cancelled(held),
        replies.6 == Reply::Attached(file),
{
}

/// A list that comes back is handed on as the list that was asked for.
pub proof fn a_list_is_handed_on(
    hello: Hello,
    folders: Vec<Folder>,
    accounts: Vec<Account>,
    outbox: Vec<Outgoing>,
    drafts: Vec<Draft>,
    jobs: Vec<Job>,
    sources: Vec<Source>,
    replies: (Reply, Reply, Reply, Reply, Reply, Reply, Reply),
)
    requires
        protocol::served(Request::Hello, Answer::Done(Decoded::Hello(hello)), replies.0),
        protocol::served(Request::Folders, Answer::Done(Decoded::Folders(folders)), replies.1),
        protocol::served(Request::Accounts, Answer::Done(Decoded::Accounts(accounts)), replies.2),
        protocol::served(Request::Outbox, Answer::Done(Decoded::Outbox(outbox)), replies.3),
        protocol::served(Request::Drafts, Answer::Done(Decoded::Drafts(drafts)), replies.4),
        protocol::served(Request::Jobs, Answer::Done(Decoded::Jobs(jobs)), replies.5),
        protocol::served(Request::Sources, Answer::Done(Decoded::Sources(sources)), replies.6),
    ensures
        replies.0 == Reply::Hello(hello),
        replies.1 == Reply::Folders(folders),
        replies.2 == Reply::Accounts(accounts),
        replies.3 == Reply::Outbox(outbox),
        replies.4 == Reply::Drafts(drafts),
        replies.5 == Reply::Jobs(jobs),
        replies.6 == Reply::Sources(sources),
{
}

/// A wish of which nothing comes back but that it was heard is acknowledged, whatever came, and a
/// task is said to have started.
pub proof fn a_wish_is_acknowledged(
    id: i64,
    folder: i64,
    decision: Decision,
    source: usize,
    came: Decoded,
    replies: (Reply, Reply, Reply, Reply),
    tasks: (Reply, Reply, Reply),
)
    requires
        protocol::served(Request::MarkRead { id, folder }, Answer::Done(came), replies.0),
        protocol::served(Request::Decide { id, decision }, Answer::Done(came), replies.1),
        protocol::served(Request::Retry { id }, Answer::Done(came), replies.2),
        protocol::served(Request::DeleteDraft { id }, Answer::Done(came), replies.3),
        protocol::served(Request::StartImport { source }, Answer::Done(came), tasks.0),
        protocol::served(Request::StartIndex, Answer::Done(came), tasks.1),
        protocol::served(Request::StartSync { account: id }, Answer::Done(came), tasks.2),
    ensures
        replies.0 is Acknowledged && replies.1 is Acknowledged && replies.2 is Acknowledged
            && replies.3 is Acknowledged,
        tasks.0 is Started && tasks.1 is Started && tasks.2 is Started,
{
}

/// A refusal is told from a service that cannot be reached, in its own words, and neither is ever
/// taken for a success.
pub proof fn a_refusal_is_told_from_an_outage(
    request: Request,
    why: String,
    refused: Reply,
    down: Reply,
)
    requires
        protocol::served(request, Answer::Refused(why), refused),
        protocol::served(request, Answer::Down(why), down),
    ensures
        refused matches Reply::Failed { what, message, transport } && message@ == why@
            && !transport,
        down matches Reply::Failed { what, message, transport } && message@ == why@ && transport,
{
}

/// A result of another shape than the one that was asked for is told as a failure, and is never
/// shown in its place.
pub proof fn a_result_of_another_shape_is_a_failure(
    query: String,
    limit: u32,
    id: i64,
    it: Compose,
    rows: Vec<Row>,
    why: String,
    replies: (Reply, Reply, Reply),
)
    requires
        protocol::served(
            Request::Search { query, limit },
            Answer::Done(Decoded::Thread(rows)),
            replies.0,
        ),
        protocol::served(
            Request::Send(Box::new(it)),
            Answer::Done(Decoded::Unreadable(why)),
            replies.1,
        ),
        protocol::served(Request::Cancel { id }, Answer::Done(Decoded::Nothing), replies.2),
    ensures
        replies.0 is Failed && replies.1 is Failed && replies.2 is Failed,
        replies.1 matches Reply::Failed { what, message, transport } && text::occurs(
            why@,
            message@,
        ) && !transport,
{
    let message = replies.1->message;
    let lead = "réponse inattendue : "@;
    let at = lead.len() as int;
    assert(message@ == lead + why@);
    assert(message@.subrange(at, at + why@.len()) == why@);
}

// ---------------------------------------------------------------------------------------------
// A failure is told where something waited
// ---------------------------------------------------------------------------------------------

/// Whether a failure is told to the user, in the words of the service.
pub open spec fn is_told(post: Shell, why: Seq<char>) -> bool {
    post.notices.status matches Some(said) && text::occurs(why, said@)
}

proof fn lemma_told(
    pre: Shell,
    what: &'static str,
    message: String,
    transport: bool,
    now: u64,
    post: Shell,
)
    requires
        absorb::absorbed(pre, Reply::Failed { what, message, transport }, now, post),
    ensures
        is_told(post, message@),
{
    let said = post.notices.status->0@;
    let lead = what@ + " : "@;
    let at = lead.len() as int;
    assert(said == lead + message@);
    assert(said.subrange(at, at + message@.len()) == message@);
}

/// A sending that fails stops waiting, keeps the message, and is told.
pub proof fn a_sending_that_fails_can_be_tried_again(
    pre: Shell,
    it: Compose,
    why: String,
    down: bool,
    reply: Reply,
    now: u64,
    post: Shell,
)
    requires
        protocol::served(
            Request::Send(Box::new(it)),
            if down {
                Answer::Down(why)
            } else {
                Answer::Refused(why)
            },
            reply,
        ),
        absorb::absorbed(pre, reply, now, post),
    ensures
        !post.writing.sending,
        post.writing.compose == pre.writing.compose,
        is_told(post, why@),
        down ==> (post.notices.offline matches Some(words) && words@ == why@),
        !down ==> post.notices.offline == pre.notices.offline,
{
    lemma_told(pre, reply->what, reply->message, reply->Failed_transport, now, post);
}

/// A page, a search, a message or a source that fails is no longer waited for, and is told; only
/// what it was waited for by stops waiting.
pub proof fn what_fails_is_no_longer_waited_for(
    pre: Shell,
    folder: i64,
    after: Option<String>,
    limit: u32,
    query: String,
    id: i64,
    remote_images: bool,
    of: SourceOf,
    why: String,
    replies: (Reply, Reply, Reply, Reply),
    now: u64,
    posts: (Shell, Shell, Shell, Shell),
)
    requires
        protocol::served(
            Request::Page { folder, after, limit },
            Answer::Refused(why),
            replies.0,
        ),
        protocol::served(Request::Search { query, limit }, Answer::Refused(why), replies.1),
        protocol::served(Request::Open { id, remote_images }, Answer::Refused(why), replies.2),
        protocol::served(Request::Source { of }, Answer::Refused(why), replies.3),
        absorb::absorbed(pre, replies.0, now, posts.0),
        absorb::absorbed(pre, replies.1, now, posts.1),
        absorb::absorbed(pre, replies.2, now, posts.2),
        absorb::absorbed(pre, replies.3, now, posts.3),
    ensures
        !posts.0.list.loading_page && is_told(posts.0, why@),
        posts.0.list.searching == pre.list.searching,
        posts.0.writing == pre.writing,
        posts.0.reader == pre.reader,
        !posts.1.list.searching && is_told(posts.1, why@),
        posts.1.list.loading_page == pre.list.loading_page,
        posts.1.writing == pre.writing,
        posts.1.reader == pre.reader,
        !posts.2.reader.opening && is_told(posts.2, why@),
        posts.2.reader.open_error matches Some(words) && words@ == why@,
        posts.2.list == pre.list,
        posts.2.writing == pre.writing,
        pre.panels.source is Some ==> (posts.3.panels.source matches Some(view) && (
        view.error matches Some(words) && words@ == why@)),
        posts.3.reader == pre.reader,
        posts.3.list == pre.list,
        posts.3.writing == pre.writing,
        is_told(posts.3, why@),
{
    reveal_strlit("page");
    reveal_strlit("recherche");
    reveal_strlit("message");
    reveal_strlit("source");
    reveal_strlit("envoi");
    assert("page"@.len() == 4 && "recherche"@.len() == 9 && "message"@.len() == 7
        && "source"@.len() == 6 && "envoi"@.len() == 5);
    lemma_told(pre, replies.0->what, replies.0->message, false, now, posts.0);
    lemma_told(pre, replies.1->what, replies.1->message, false, now, posts.1);
    lemma_told(pre, replies.2->what, replies.2->message, false, now, posts.2);
    lemma_told(pre, replies.3->what, replies.3->message, false, now, posts.3);
}

/// A form of the settings that is refused stays open, with the refusal beside it.
pub proof fn a_refused_form_stays_open(
    pre: Shell,
    page: settings::Page,
    why: String,
    reply: Reply,
    now: u64,
    post: Shell,
)
    requires
        pre.panels.settings == Some(page),
        protocol::is_failure(reply, "compte"@, why@, false),
        absorb::absorbed(pre, reply, now, post),
    ensures
        post.panels.settings matches Some(after) && after.declaring == page.declaring
            && after.submitting == page.submitting && after.consenting == page.consenting
            && after.failed && (after.message matches Some(words) && words@ == why@)
            && after.accounts == page.accounts && after.consent_url is None,
{
}

// ---------------------------------------------------------------------------------------------
// What came is shown where it was asked for
// ---------------------------------------------------------------------------------------------

/// A list that comes takes the place of the one that was known, and nothing else moves.
pub proof fn a_list_takes_the_place_of_the_one_before(
    pre: Shell,
    accounts: Vec<Account>,
    outbox: Vec<Outgoing>,
    drafts: Vec<Draft>,
    jobs: Vec<Job>,
    sources: Vec<Source>,
    now: u64,
    posts: (Shell, Shell, Shell, Shell, Shell),
)
    requires
        absorb::absorbed(pre, Reply::Accounts(accounts), now, posts.0),
        absorb::absorbed(pre, Reply::Outbox(outbox), now, posts.1),
        absorb::absorbed(pre, Reply::Drafts(drafts), now, posts.2),
        absorb::absorbed(pre, Reply::Jobs(jobs), now, posts.3),
        absorb::absorbed(pre, Reply::Sources(sources), now, posts.4),
    ensures
        posts.0.writing.accounts@ == accounts@ && posts.0.writing.compose == pre.writing.compose
            && posts.0.writing.drafts == pre.writing.drafts && posts.0.list == pre.list,
        posts.1.panels.outbox@ == outbox@ && posts.1.panels.jobs == pre.panels.jobs
            && posts.1.panels.show_outbox == pre.panels.show_outbox && posts.1.writing
            == pre.writing && posts.1.list == pre.list,
        posts.2.writing.drafts@ == drafts@ && posts.2.writing.compose == pre.writing.compose
            && posts.2.writing.accounts == pre.writing.accounts && posts.2.list == pre.list,
        posts.3.panels.jobs@ == jobs@ && posts.3.panels.outbox == pre.panels.outbox
            && posts.3.panels.sources == pre.panels.sources && posts.3.list == pre.list,
        posts.4.panels.sources@ == sources@ && posts.4.panels.jobs == pre.panels.jobs
            && posts.4.list == pre.list,
{
}

/// A file that was put in the store is attached behind the others, to the message that is being
/// written, of which nothing else moves.
pub proof fn a_file_is_attached_behind_the_others(
    pre: Shell,
    it: Compose,
    file: Attached,
    now: u64,
    post: Shell,
)
    requires
        pre.writing.compose == Some(it),
        absorb::absorbed(pre, Reply::Attached(file), now, post),
    ensures
        post.writing.compose matches Some(after) && after.attachments@ == it.attachments@ + seq![
            file,
        ] && sending::reads_as(Compose { attachments: it.attachments, ..after }, it),
        post.list == pre.list,
        post.reader == pre.reader,
        post.panels == pre.panels,
{
    let after = post.writing.compose->0;
    assert(it.attachments@.push(file) == it.attachments@ + seq![file]);
}

/// A message that was kept is the draft of the number that came, so that keeping it again replaces
/// that draft; nothing of what was typed moves.
pub proof fn a_kept_message_knows_its_draft(
    pre: Shell,
    it: Compose,
    id: Option<i64>,
    now: u64,
    post: Shell,
)
    requires
        pre.writing.compose == Some(it),
        absorb::absorbed(pre, Reply::Saved(id), now, post),
    ensures
        post.writing.compose matches Some(after) && after.draft == id && sending::reads_as(
            Compose { draft: it.draft, ..after },
            it,
        ),
        absorb::asks_of(pre, Reply::Saved(id)) == seq![Request::Drafts],
{
}

/// A message in the queue closes its window, can be held back by its own number while the service
/// keeps it, and its draft is thrown away; how many it goes to is told.
pub proof fn a_queued_message_can_be_held_back(
    pre: Shell,
    it: Compose,
    queued: Queued,
    now: u64,
    post: Shell,
)
    requires
        pre.writing.compose == Some(it),
        absorb::absorbed(pre, Reply::Queued(queued), now, post),
    ensures
        post.writing.compose is None,
        !post.writing.sending,
        queued.hold > 0 ==> post.notices.cancellable == Some(queued.id),
        queued.hold == 0 ==> post.notices.cancellable is None,
        is_told(post, text::dec(queued.recipients@.len())),
        queued.hold > 0 ==> is_told(post, text::dec(queued.hold as nat)),
        it.draft matches Some(id) ==> absorb::asks_of(pre, Reply::Queued(queued)).contains(
            Request::DeleteDraft { id },
        ),
        absorb::asks_of(pre, Reply::Queued(queued)).contains(Request::Outbox),
        post.list == pre.list,
        post.reader == pre.reader,
        post.writing.drafts == pre.writing.drafts,
{
    let said = post.notices.status->0@;
    let many = text::dec(queued.recipients@.len());
    let lead = "Message en file d'envoi ("@;
    let at = lead.len() as int;
    assert(said.subrange(at, at + many.len()) == many);
    if queued.hold > 0 {
        let wait = text::dec(queued.hold as nat);
        let lead = "Message en file d'envoi ("@ + many + " destinataire(s), "@ + text::dec(
            queued.size as nat,
        ) + " octets). Il partira dans "@;
        let at = lead.len() as int;
        assert(said.subrange(at, at + wait.len()) == wait);
    }
    let asked = absorb::asks_of(pre, Reply::Queued(queued));
    match it.draft {
        Some(id) => {
            assert(asked[0] == Request::DeleteDraft { id });
            assert(asked[1] == Request::Outbox);
        },
        None => {
            assert(asked[0] == Request::Outbox);
        },
    }
}

/// A message that was to be held back is said to be, or to have gone: the two are never said in
/// the same words, and neither can be asked for again.
pub proof fn what_is_said_of_a_message_held_back_is_what_happened(
    pre: Shell,
    now: u64,
    held: Shell,
    gone: Shell,
)
    requires
        absorb::absorbed(pre, Reply::Cancelled(true), now, held),
        absorb::absorbed(pre, Reply::Cancelled(false), now, gone),
    ensures
        is_told(held, "ne partira pas"@),
        is_told(gone, "Trop tard"@),
        held.notices.status->0@ != gone.notices.status->0@,
        held.notices.cancellable is None && gone.notices.cancellable is None,
        held.writing == pre.writing && gone.writing == pre.writing,
        absorb::asks_of(pre, Reply::Cancelled(true)) == seq![Request::Outbox],
        absorb::asks_of(pre, Reply::Cancelled(false)) == seq![Request::Outbox],
{
    reveal_strlit("Envoi annulé : le message ne partira pas.");
    reveal_strlit("Trop tard : le message était déjà en cours de remise.");
    reveal_strlit("ne partira pas");
    reveal_strlit("Trop tard");
    let a = held.notices.status->0@;
    let b = gone.notices.status->0@;
    let at: int = 26;
    assert(a.subrange(at, at + "ne partira pas"@.len()) =~= "ne partira pas"@);
    let at: int = 0;
    assert(b.subrange(at, at + "Trop tard"@.len()) =~= "Trop tard"@);
    assert(a[0] != b[0]);
}

/// A signature is known for the account that it came for, and for no other.
pub proof fn a_signature_is_known_for_its_account(
    pre: Shell,
    account: i64,
    found: Option<Document>,
    other: i64,
    now: u64,
    post: Shell,
)
    requires
        other != account,
        absorb::absorbed(pre, Reply::Signature { account, found }, now, post),
    ensures
        post.writing.signatures@.dom().contains(account),
        post.writing.signatures@[account] == found,
        post.writing.signatures@.dom().contains(other)
            == pre.writing.signatures@.dom().contains(other),
        pre.writing.signatures@.dom().contains(other) ==> post.writing.signatures@[other]
            == pre.writing.signatures@[other],
        pre.writing.editor matches Some(editor) && editor.account != account
            ==> post.writing.editor == pre.writing.editor,
        pre.writing.editor matches Some(editor) && !editor.saving ==> post.writing.editor
            == pre.writing.editor,
        pre.writing.editor matches Some(editor) && editor.account == account && editor.saving
            ==> post.writing.editor is None,
        post.writing.compose == pre.writing.compose,
{
}

/// Proposals for the last key are shown, and those for an earlier one are not.
pub proof fn the_proposals_are_those_for_the_last_key(
    pre: Shell,
    token: u64,
    found: Vec<Suggestion>,
    now: u64,
    post: Shell,
)
    requires
        absorb::absorbed(pre, Reply::Complete { token, found }, now, post),
    ensures
        token == pre.writing.suggest_token ==> post.writing.suggestions@ == found@,
        token != pre.writing.suggest_token ==> post.writing.suggestions == pre.writing.suggestions,
        post.writing.compose == pre.writing.compose,
        post.writing.suggest_token == pre.writing.suggest_token,
        post.writing.suggesting == pre.writing.suggesting,
{
}

/// What an account has become is told on the settings page, whose forms close and whose accounts
/// are read again.
pub proof fn a_written_account_is_told_and_read_again(
    pre: Shell,
    page: settings::Page,
    said: String,
    accounts: Vec<AccountDetail>,
    url: String,
    now: u64,
    posts: (Shell, Shell, Shell),
)
    requires
        pre.panels.settings == Some(page),
        absorb::absorbed(pre, Reply::AccountWritten(said), now, posts.0),
        absorb::absorbed(pre, Reply::AccountsDetail(accounts), now, posts.1),
        absorb::absorbed(pre, Reply::ConsentUrl(url), now, posts.2),
    ensures
        posts.0.panels.settings matches Some(after) && after.message == Some(said) && !after.failed
            && after.declaring is None && after.submitting is None && after.consenting is None
            && after.consent_url is None && after.accounts == page.accounts && after.remote
            == page.remote,
        absorb::asks_of(pre, Reply::AccountWritten(said)).contains(Request::AccountsDetail),
        absorb::asks_of(pre, Reply::AccountWritten(said)).contains(Request::Accounts),
        posts.1.panels.settings matches Some(after) && after.accounts@ == accounts@
            && after.declaring == page.declaring && after.message == page.message,
        posts.2.panels.settings matches Some(after) && after.consent_url == Some(url)
            && after.consenting is None && after.declaring == page.declaring,
{
    let asked = absorb::asks_of(pre, Reply::AccountWritten(said));
    assert(asked[0] == Request::AccountsDetail);
    assert(asked[1] == Request::Accounts);
}

/// A change of the store has the lists read again, and the open folder first of all its pages.
pub proof fn a_change_has_the_lists_read_again(pre: Shell)
    ensures
        absorb::asks_of(pre, Reply::Changed).contains(Request::Folders),
        absorb::asks_of(pre, Reply::Changed).contains(Request::Outbox),
        absorb::asks_of(pre, Reply::Changed).contains(Request::Drafts),
        pre.list.current matches Some(id) ==> absorb::asks_of(pre, Reply::Changed).contains(
            Request::Page { folder: id, after: None, limit: 100 },
        ),
        absorb::asks_of(pre, Reply::Started).contains(Request::Jobs),
{
    let asked = absorb::asks_of(pre, Reply::Changed);
    assert(asked[0] == Request::Folders);
    assert(asked[1] == Request::Outbox);
    assert(asked[2] == Request::Drafts);
    match pre.list.current {
        Some(id) => {
            assert(asked[3] == (Request::Page { folder: id, after: None, limit: 100 }));
        },
        None => {},
    }
    assert(absorb::asks_of(pre, Reply::Started)[0] == Request::Jobs);
}

/// A service that speaks another version of the contract stops the interface and is named with
/// both versions; one that speaks the same is greeted.
pub proof fn two_versions_do_not_speak(pre: Shell, hello: Hello, now: u64, post: Shell)
    requires
        absorb::absorbed(pre, Reply::Hello(hello), now, post),
    ensures
        hello.protocol == pre.protocol ==> post.hello == Some(hello) && post.fatal == pre.fatal,
        hello.protocol != pre.protocol ==> post.hello == pre.hello && (post.fatal matches Some(
            words,
        ) && text::occurs(text::dec(pre.protocol as nat), words@) && text::occurs(
            text::dec(hello.protocol as nat),
            words@,
        )),
        post.list == pre.list,
{
    if hello.protocol != pre.protocol {
        let words = post.fatal->0@;
        let ours = text::dec(pre.protocol as nat);
        let theirs = text::dec(hello.protocol as nat);
        let lead = "cette coquille parle le protocole "@;
        let at = lead.len() as int;
        assert(words.subrange(at, at + ours.len()) == ours);
        let lead = lead + ours + ", le service parle "@;
        let at = lead.len() as int;
        assert(words.subrange(at, at + theirs.len()) == theirs);
    }
}

/// The folder that opens by itself is the first inbox; failing any, the first folder.
pub proof fn the_inbox_opens_by_itself(folders: Seq<Folder>, i: int)
    requires
        0 <= i < folders.len(),
        folders[i].kind@ == "inbox"@,
        forall|j: int| 0 <= j < i ==> (#[trigger] folders[j]).kind@ != "inbox"@,
    ensures
        worker::opening(folders) == Some(folders[i].id),
{
    assert(worker::is_inbox(folders[i]));
    assert forall|j: int| 0 <= j < i implies !#[trigger] worker::is_inbox(folders[j]) by {
        assert(folders[j].kind@ != "inbox"@);
    }
    assert(worker::opens(folders, i));
    let k = choose|k: int| worker::opens(folders, k);
    worker::one_folder_opens_first(folders, i, k);
}

/// A task that was started is looked at at once; a service that is back is no longer said to be away,
/// and nothing else moves.
pub proof fn a_started_task_is_looked_at_at_once(pre: Shell, now: u64, started: Shell, back: Shell)
    requires
        absorb::absorbed(pre, Reply::Started, now, started),
        absorb::absorbed(pre, Reply::Online, now, back),
    ensures
        started.panels.jobs_polled is None,
        started.panels.jobs == pre.panels.jobs,
        started.list == pre.list && started.writing == pre.writing,
        absorb::asks_of(pre, Reply::Started) == seq![Request::Jobs],
        back.notices.offline is None,
        back.notices.status == pre.notices.status,
        back.list == pre.list && back.writing == pre.writing && back.reader == pre.reader,
        absorb::asks_of(pre, Reply::Online).len() == 0,
{
}

/// What a probe came to is noted while one is awaited, and only then: served where an answer came,
/// failed cleanly where the transport did, and refused where the service refused.
pub proof fn a_probe_is_noted_as_it_ended(
    pre: Shell,
    now: u64,
    opened: Option<Opened>,
    open: Shell,
    found: Results,
    search: Shell,
    why: String,
    transport: bool,
    failed: Shell,
)
    requires
        absorb::absorbed(pre, Reply::Open(opened), now, open),
        absorb::absorbed(pre, Reply::Search(found), now, search),
        absorb::absorbed(
            pre,
            Reply::Failed { what: "message", message: why, transport },
            now,
            failed,
        ),
    ensures
        pre.trial.state.phase == Phase::Probing ==> open.trial.probe.open == Some(Verdict::Served)
            && open.trial.probe.search == pre.trial.probe.search,
        pre.trial.state.phase == Phase::Probing ==> search.trial.probe.search == Some(
            Verdict::Served,
        ) && search.trial.probe.open == pre.trial.probe.open,
        pre.trial.state.phase == Phase::Probing ==> failed.trial.probe.open == Some(
            if transport {
                Verdict::CleanFailure
            } else {
                Verdict::Refused
            },
        ),
        pre.trial.state.phase != Phase::Probing ==> open.trial == pre.trial && search.trial
            == pre.trial && failed.trial == pre.trial,
{
}

} // verus!
