//! What a call hands to the service: every value under its own name.
use crate::compose;
use crate::compose::Compose;
use crate::dto::{Attached, Draft};
use crate::protocol;
use crate::protocol::{Call, Decision, Method, Param, Request, SourceOf};
use crate::recipients;
use crate::shell::Shell;
use crate::signature::Document;
use crate::text;
use crate::writing;
use vstd::prelude::*;
use vstd::string::*;

verus! {

// ---------------------------------------------------------------------------------------------
// What stands under a name
// ---------------------------------------------------------------------------------------------

/// Whether the parameter of this rank has this name.
pub open spec fn is_under(call: Call, name: Seq<char>, i: int) -> bool {
    call.params matches Some(fields) && 0 <= i < fields@.len() && fields@[i].0@ == name
}

/// The parameter of this rank.
pub open spec fn param(call: Call, i: int) -> Param {
    call.params->0@[i].1
}

/// The texts of a parameter that is a list of texts.
pub open spec fn texts_in(param: Param) -> Option<Seq<Seq<char>>> {
    match param {
        Param::Texts(list) => Some(text::texts(list@)),
        Param::List(list) => Some(text::texts(list@)),
        _ => None,
    }
}

/// The text of a parameter that is one.
pub open spec fn words_in(param: Param) -> Option<Seq<char>> {
    match param {
        Param::Text(words) => Some(words@),
        _ => None,
    }
}

/// The number of a parameter that is one.
pub open spec fn number_in(param: Param) -> Option<int> {
    match param {
        Param::Int(n) => Some(n as int),
        Param::Count(n) => Some(n as int),
        _ => None,
    }
}

/// Whether a call has one list of texts under a name: this one.
pub open spec fn gives_texts(call: Call, name: Seq<char>, list: Seq<Seq<char>>) -> bool {
    &&& exists|i: int| #[trigger] is_under(call, name, i)
    &&& forall|i: int| #[trigger] is_under(call, name, i) ==> texts_in(param(call, i)) == Some(list)
}

/// Whether a call has one text under a name: this one.
pub open spec fn gives_words(call: Call, name: Seq<char>, words: Seq<char>) -> bool {
    &&& exists|i: int| #[trigger] is_under(call, name, i)
    &&& forall|i: int| #[trigger]
        is_under(call, name, i) ==> words_in(param(call, i)) == Some(words)
}

/// Whether a call has one number under a name: this one.
pub open spec fn gives_number(call: Call, name: Seq<char>, n: int) -> bool {
    &&& exists|i: int| #[trigger] is_under(call, name, i)
    &&& forall|i: int| #[trigger] is_under(call, name, i) ==> number_in(param(call, i)) == Some(n)
}

/// Whether a call has one flag under a name: this one.
pub open spec fn gives_flag(call: Call, name: Seq<char>, flag: bool) -> bool {
    &&& exists|i: int| #[trigger] is_under(call, name, i)
    &&& forall|i: int| #[trigger] is_under(call, name, i) ==> param(call, i) == Param::Flag(flag)
}

/// Whether a call has nothing under a name but a null.
pub open spec fn gives_nothing(call: Call, name: Seq<char>) -> bool {
    &&& exists|i: int| #[trigger] is_under(call, name, i)
    &&& forall|i: int| #[trigger] is_under(call, name, i) ==> param(call, i) is Null
}

/// Whether a call has one list of files under a name: this one.
pub open spec fn gives_files(call: Call, name: Seq<char>, files: Seq<Attached>) -> bool {
    &&& exists|i: int| #[trigger] is_under(call, name, i)
    &&& forall|i: int| #[trigger]
        is_under(call, name, i) ==> (param(call, i) matches Param::Files(list) && list@ == files)
}

/// Whether a call has an optional text under a name: this one.
pub open spec fn gives_opt_words(call: Call, name: Seq<char>, words: Option<String>) -> bool {
    match words {
        Some(words) => gives_words(call, name, words@),
        None => gives_nothing(call, name),
    }
}

/// Whether a call has an optional number under a name: this one.
pub open spec fn gives_opt_number(call: Call, name: Seq<char>, n: Option<i64>) -> bool {
    match n {
        Some(n) => gives_number(call, name, n as int),
        None => gives_nothing(call, name),
    }
}

/// The parameter of a name that no other has stands where the name does.
proof fn lemma_under(request: Request, call: Call, k: int)
    requires
        protocol::calls(request, call),
        protocol::params_of(request) is Some,
        0 <= k < protocol::params_of(request)->0.len(),
        forall|j: int|
            0 <= j < protocol::params_of(request)->0.len() && j != k ==> (
            #[trigger] protocol::params_of(request)->0[j]).0 != protocol::params_of(request)->0[k].0,
    ensures
        is_under(call, protocol::params_of(request)->0[k].0, k),
        forall|i: int|
            is_under(call, protocol::params_of(request)->0[k].0, i) ==> i == k,
        protocol::value_of(param(call, k)) == protocol::params_of(request)->0[k].1,
{
    let p = protocol::params_of(request)->0;
    let fields = call.params->0@;
    assert(p == protocol::values_of(fields));
    assert(p[k] == (fields[k].0@, protocol::value_of(fields[k].1)));
    assert forall|i: int| is_under(call, p[k].0, i) implies i == k by {
        assert(p[i] == (fields[i].0@, protocol::value_of(fields[i].1)));
    }
}

// ---------------------------------------------------------------------------------------------
// A message to send
// ---------------------------------------------------------------------------------------------

proof fn lemma_sending_names()
    ensures
        "to"@ != "cc"@,
        "account"@ != "subject"@,
        "in_reply_to"@ != "attachments"@,
        "account"@.len() == 7,
        "to"@.len() == 2,
        "cc"@.len() == 2,
        "bcc"@.len() == 3,
        "subject"@.len() == 7,
        "text"@.len() == 4,
        "signature"@.len() == 9,
        "in_reply_to"@.len() == 11,
        "references"@.len() == 10,
        "attachments"@.len() == 11,
{
    reveal_strlit("account");
    reveal_strlit("to");
    reveal_strlit("cc");
    reveal_strlit("bcc");
    reveal_strlit("subject");
    reveal_strlit("text");
    reveal_strlit("signature");
    reveal_strlit("in_reply_to");
    reveal_strlit("references");
    reveal_strlit("attachments");
    assert("to"@[0] != "cc"@[0]);
    assert("account"@[0] != "subject"@[0]);
    assert("in_reply_to"@[0] != "attachments"@[0]);
}

/// A message is sent as it was written: who was typed in a field is named under that field and no
/// other, and the subject, the text, the thread, the files and the wish to sign are the message's.
pub proof fn a_message_is_sent_as_it_was_written(it: Compose, call: Call)
    requires
        protocol::calls(Request::Send(Box::new(it)), call),
    ensures
        call.method == Method::OutboxSend,
        gives_number(call, "account"@, it.account as int),
        gives_texts(call, "to"@, recipients::recipients_of(it.to@)),
        gives_texts(call, "cc"@, recipients::recipients_of(it.cc@)),
        gives_texts(call, "bcc"@, recipients::recipients_of(it.bcc@)),
        gives_words(call, "subject"@, it.subject@),
        gives_words(call, "text"@, it.text@),
        gives_flag(call, "signature"@, it.sign),
        gives_opt_words(call, "in_reply_to"@, it.in_reply_to),
        gives_texts(call, "references"@, text::texts(it.references@)),
        gives_files(call, "attachments"@, it.attachments@),
{
    let request = Request::Send(Box::new(it));
    let p = protocol::params_of(request)->0;
    lemma_sending_names();
    assert(p.len() == 10);
    lemma_under(request, call, 0);
    lemma_under(request, call, 1);
    lemma_under(request, call, 2);
    lemma_under(request, call, 3);
    lemma_under(request, call, 4);
    lemma_under(request, call, 5);
    lemma_under(request, call, 6);
    lemma_under(request, call, 7);
    lemma_under(request, call, 8);
    lemma_under(request, call, 9);
}

/// Who is in blind copy is seen by nobody: of two messages that differ in that field alone, every
/// visible header says the same.
pub proof fn a_blind_copy_is_seen_by_nobody(it: Compose, bcc: String, a: Call, b: Call)
    requires
        protocol::calls(Request::Send(Box::new(it)), a),
        protocol::calls(Request::Send(Box::new(Compose { bcc, ..it })), b),
    ensures
        forall|i: int, j: int|
            #![trigger is_under(a, "to"@, i), is_under(b, "to"@, j)]
            is_under(a, "to"@, i) && is_under(b, "to"@, j) ==> texts_in(param(a, i)) == texts_in(
                param(b, j),
            ),
        forall|i: int, j: int|
            #![trigger is_under(a, "cc"@, i), is_under(b, "cc"@, j)]
            is_under(a, "cc"@, i) && is_under(b, "cc"@, j) ==> texts_in(param(a, i)) == texts_in(
                param(b, j),
            ),
        forall|i: int, j: int|
            #![trigger is_under(a, "subject"@, i), is_under(b, "subject"@, j)]
            is_under(a, "subject"@, i) && is_under(b, "subject"@, j) ==> words_in(param(a, i))
                == words_in(param(b, j)),
        forall|i: int, j: int|
            #![trigger is_under(a, "text"@, i), is_under(b, "text"@, j)]
            is_under(a, "text"@, i) && is_under(b, "text"@, j) ==> words_in(param(a, i))
                == words_in(param(b, j)),
{
    a_message_is_sent_as_it_was_written(it, a);
    a_message_is_sent_as_it_was_written(Compose { bcc, ..it }, b);
}

// ---------------------------------------------------------------------------------------------
// A draft
// ---------------------------------------------------------------------------------------------

proof fn lemma_draft_names()
    ensures
        "id"@.len() == 2,
        "id"@ != "to"@,
        "id"@ != "cc"@,
        "body"@.len() == 4,
        "sign"@.len() == 4,
        "body"@ != "sign"@,
{
    reveal_strlit("id");
    reveal_strlit("to");
    reveal_strlit("cc");
    reveal_strlit("body");
    reveal_strlit("sign");
    assert("id"@[0] != "to"@[0]);
    assert("id"@[0] != "cc"@[0]);
    assert("body"@[0] != "sign"@[0]);
}

/// Whether a draft is what a call had kept: each field is what the call gives under its name.
pub open spec fn keeps(call: Call, draft: Draft) -> bool {
    &&& gives_opt_number(call, "id"@, draft.id)
    &&& gives_number(call, "account"@, draft.account as int)
    &&& gives_words(call, "to"@, draft.to@)
    &&& gives_words(call, "cc"@, draft.cc@)
    &&& gives_words(call, "bcc"@, draft.bcc@)
    &&& gives_words(call, "subject"@, draft.subject@)
    &&& gives_words(call, "body"@, draft.body@)
    &&& gives_opt_words(call, "in_reply_to"@, draft.in_reply_to)
    &&& gives_texts(call, "references"@, text::texts(draft.references@))
    &&& gives_flag(call, "sign"@, draft.sign)
    &&& gives_files(call, "attachments"@, draft.attachments@)
}

/// Whether a message reads as another, field by field.
pub open spec fn reads_as(a: Compose, b: Compose) -> bool {
    &&& a.account == b.account
    &&& a.to@ == b.to@
    &&& a.cc@ == b.cc@
    &&& a.bcc@ == b.bcc@
    &&& a.subject@ == b.subject@
    &&& a.text@ == b.text@
    &&& text::opt_text(a.in_reply_to) == text::opt_text(b.in_reply_to)
    &&& text::texts(a.references@) == text::texts(b.references@)
    &&& a.attachments@ == b.attachments@
    &&& a.sign == b.sign
    &&& a.draft == b.draft
}

/// A message is kept as it was typed: every field stands under its own name, recipients included,
/// unread and uncut.
pub proof fn a_draft_is_kept_as_it_was_typed(it: Compose, call: Call)
    requires
        protocol::calls(Request::SaveDraft(Box::new(it)), call),
    ensures
        call.method == Method::DraftsSave,
        gives_opt_number(call, "id"@, it.draft),
        gives_number(call, "account"@, it.account as int),
        gives_words(call, "to"@, it.to@),
        gives_words(call, "cc"@, it.cc@),
        gives_words(call, "bcc"@, it.bcc@),
        gives_words(call, "subject"@, it.subject@),
        gives_words(call, "body"@, it.text@),
        gives_opt_words(call, "in_reply_to"@, it.in_reply_to),
        gives_texts(call, "references"@, text::texts(it.references@)),
        gives_flag(call, "sign"@, it.sign),
        gives_files(call, "attachments"@, it.attachments@),
{
    let request = Request::SaveDraft(Box::new(it));
    let p = protocol::params_of(request)->0;
    lemma_sending_names();
    lemma_draft_names();
    assert(p.len() == 11);
    lemma_under(request, call, 0);
    lemma_under(request, call, 1);
    lemma_under(request, call, 2);
    lemma_under(request, call, 3);
    lemma_under(request, call, 4);
    lemma_under(request, call, 5);
    lemma_under(request, call, 6);
    lemma_under(request, call, 7);
    lemma_under(request, call, 8);
    lemma_under(request, call, 9);
    lemma_under(request, call, 10);
}

/// A draft that was kept comes back as the message that was typed: keeping a message and opening
/// the draft again changes nothing of it.
pub proof fn a_draft_comes_back_as_it_was_typed(
    it: Compose,
    call: Call,
    draft: Draft,
    opened: Compose,
)
    requires
        protocol::calls(Request::SaveDraft(Box::new(it)), call),
        keeps(call, draft),
        compose::same_compose(opened, compose::of_draft(draft)),
    ensures
        reads_as(opened, it),
{
    a_draft_is_kept_as_it_was_typed(it, call);
    lemma_one_text(call, "to"@, it.to@, draft.to@);
    lemma_one_text(call, "cc"@, it.cc@, draft.cc@);
    lemma_one_text(call, "bcc"@, it.bcc@, draft.bcc@);
    lemma_one_text(call, "subject"@, it.subject@, draft.subject@);
    lemma_one_text(call, "body"@, it.text@, draft.body@);
    let i = choose|i: int| is_under(call, "account"@, i);
    assert(is_under(call, "account"@, i));
    let i = choose|i: int| is_under(call, "id"@, i);
    assert(is_under(call, "id"@, i));
    let i = choose|i: int| is_under(call, "in_reply_to"@, i);
    assert(is_under(call, "in_reply_to"@, i));
    let i = choose|i: int| is_under(call, "references"@, i);
    assert(is_under(call, "references"@, i));
    let i = choose|i: int| is_under(call, "sign"@, i);
    assert(is_under(call, "sign"@, i));
    let i = choose|i: int| is_under(call, "attachments"@, i);
    assert(is_under(call, "attachments"@, i));
}

proof fn lemma_one_text(call: Call, name: Seq<char>, a: Seq<char>, b: Seq<char>)
    requires
        gives_words(call, name, a),
        gives_words(call, name, b),
    ensures
        a == b,
{
    let i = choose|i: int| is_under(call, name, i);
    assert(is_under(call, name, i));
}

/// A draft that is opened by its rank is the one of that rank, whatever was being written before:
/// the window holds its fields, and keeping it again keeps it under the same number.
pub proof fn the_draft_that_opens_is_the_one_that_was_chosen(
    pre: Shell,
    rank: int,
    post: Shell,
    call: Call,
)
    requires
        0 <= rank < pre.writing.drafts@.len(),
        writing::draft_opened(pre, rank, post),
        post.writing.compose matches Some(it) ==> protocol::calls(
            Request::SaveDraft(Box::new(it)),
            call,
        ),
    ensures
        post.writing.compose is Some,
        keeps(call, pre.writing.drafts@[rank]),
        post.writing.drafts == pre.writing.drafts,
{
    let it = post.writing.compose->0;
    a_draft_is_kept_as_it_was_typed(it, call);
}

/// The draft that is thrown away is the one that was chosen, and no other.
pub proof fn the_draft_that_goes_is_the_one_that_was_chosen(pre: Shell, rank: int, id: i64)
    requires
        0 <= rank < pre.writing.drafts@.len(),
        writing::draft_delete_asks(pre, rank).contains(Request::DeleteDraft { id }),
    ensures
        pre.writing.drafts@[rank].id == Some(id),
        writing::draft_deleted(pre, rank).writing.drafts == pre.writing.drafts,
        writing::draft_deleted(pre, rank).writing.compose matches Some(it) ==> it.draft != Some(id),
        pre.writing.compose matches Some(it) ==> (writing::draft_deleted(
            pre,
            rank,
        ).writing.compose matches Some(left) && reads_as(Compose { draft: it.draft, ..left }, it)
            && (it.draft != Some(id) ==> left.draft == it.draft)),
{
    let asked = writing::draft_delete_asks(pre, rank);
    let k = choose|k: int| 0 <= k < asked.len() && asked[k] == Request::DeleteDraft { id };
    assert(asked[k] is DeleteDraft);
}

// ---------------------------------------------------------------------------------------------
// What a call is about
// ---------------------------------------------------------------------------------------------

proof fn lemma_names()
    ensures
        "id"@.len() == 2,
        "kind"@.len() == 4,
        "body"@.len() == 4,
        "part"@.len() == 4,
        "query"@.len() == 5,
        "limit"@.len() == 5,
        "after"@.len() == 5,
        "folder"@.len() == 6,
        "source"@.len() == 6,
        "account"@.len() == 7,
        "decision"@.len() == 8,
        "signature"@.len() == 9,
        "remote_images"@.len() == 13,
        "query"@ != "limit"@,
        "after"@ != "limit"@,
        "folder"@ != "source"@,
{
    reveal_strlit("id");
    reveal_strlit("kind");
    reveal_strlit("body");
    reveal_strlit("part");
    reveal_strlit("query");
    reveal_strlit("limit");
    reveal_strlit("after");
    reveal_strlit("folder");
    reveal_strlit("source");
    reveal_strlit("account");
    reveal_strlit("decision");
    reveal_strlit("signature");
    reveal_strlit("remote_images");
    assert("query"@[0] != "limit"@[0]);
    assert("after"@[0] != "limit"@[0]);
    assert("folder"@[0] != "source"@[0]);
}

/// A gesture on the queue is about the line that was chosen, and says what was decided.
pub proof fn a_gesture_on_the_queue_is_about_its_line(id: i64, decision: Decision, calls: (Call, Call, Call, Call))
    requires
        protocol::calls(Request::Retry { id }, calls.0),
        protocol::calls(Request::Cancel { id }, calls.1),
        protocol::calls(Request::Decide { id, decision }, calls.2),
        protocol::calls(Request::Source { of: SourceOf::Outgoing(id) }, calls.3),
    ensures
        calls.0.method == Method::OutboxRetry,
        gives_number(calls.0, "id"@, id as int),
        calls.1.method == Method::OutboxCancel,
        gives_number(calls.1, "id"@, id as int),
        calls.2.method == Method::OutboxDecide,
        gives_number(calls.2, "id"@, id as int),
        decision is Resend ==> gives_words(calls.2, "decision"@, "resend"@),
        decision is Accept ==> gives_words(calls.2, "decision"@, "accept"@),
        calls.3.method == Method::OutboxSource,
        gives_number(calls.3, "id"@, id as int),
{
    lemma_names();
    lemma_under(Request::Retry { id }, calls.0, 0);
    lemma_under(Request::Cancel { id }, calls.1, 0);
    lemma_under(Request::Decide { id, decision }, calls.2, 0);
    lemma_under(Request::Decide { id, decision }, calls.2, 1);
    lemma_under(Request::Source { of: SourceOf::Outgoing(id) }, calls.3, 0);
}

/// A page is asked for of the folder and behind the cursor that the request names, and of no more
/// rows than it wants.
pub proof fn a_page_is_asked_for_behind_its_cursor(
    folder: i64,
    after: Option<String>,
    limit: u32,
    call: Call,
)
    requires
        protocol::calls(Request::Page { folder, after, limit }, call),
    ensures
        call.method == Method::MessagesPage,
        gives_number(call, "folder"@, folder as int),
        gives_number(call, "limit"@, limit as int),
        match after {
            Some(after) => gives_words(call, "after"@, after@),
            None => forall|i: int| !is_under(call, "after"@, i),
        },
{
    lemma_names();
    let request = Request::Page { folder, after, limit };
    lemma_under(request, call, 0);
    lemma_under(request, call, 1);
    if after is Some {
        lemma_under(request, call, 2);
    } else {
        let p = protocol::params_of(request)->0;
        let fields = call.params->0@;
        assert forall|i: int| !is_under(call, "after"@, i) by {
            if is_under(call, "after"@, i) {
                assert(p == protocol::values_of(fields));
                assert(p[i].0 == fields[i].0@);
            }
        }
    }
}

/// What is read is what was chosen: a message, its thread, its bytes, and with its remote images
/// only where they were wanted; and it is that message that is marked as read, in that folder.
pub proof fn what_is_read_is_what_was_chosen(
    id: i64,
    folder: i64,
    remote_images: bool,
    calls: (Call, Call, Call, Call),
)
    requires
        protocol::calls(Request::Open { id, remote_images }, calls.0),
        protocol::calls(Request::Thread { id }, calls.1),
        protocol::calls(Request::Source { of: SourceOf::Message(id) }, calls.2),
        protocol::calls(Request::MarkRead { id, folder }, calls.3),
    ensures
        calls.0.method == Method::MessagesGet,
        gives_number(calls.0, "id"@, id as int),
        gives_words(calls.0, "body"@, "html"@),
        gives_flag(calls.0, "remote_images"@, remote_images),
        calls.1.method == Method::MessagesThread,
        gives_number(calls.1, "id"@, id as int),
        calls.2.method == Method::MessagesSource,
        gives_number(calls.2, "id"@, id as int),
        calls.3.method == Method::MessagesMarkRead,
        gives_number(calls.3, "id"@, id as int),
        gives_number(calls.3, "folder"@, folder as int),
{
    lemma_names();
    lemma_under(Request::Open { id, remote_images }, calls.0, 0);
    lemma_under(Request::Open { id, remote_images }, calls.0, 1);
    lemma_under(Request::Open { id, remote_images }, calls.0, 2);
    lemma_under(Request::Thread { id }, calls.1, 0);
    lemma_under(Request::Source { of: SourceOf::Message(id) }, calls.2, 0);
    lemma_under(Request::MarkRead { id, folder }, calls.3, 0);
    lemma_under(Request::MarkRead { id, folder }, calls.3, 1);
}

/// A search and a completion are for the words that were typed.
pub proof fn a_search_is_for_the_words_that_were_typed(
    query: String,
    limit: u32,
    prefix: String,
    token: u64,
    calls: (Call, Call),
)
    requires
        protocol::calls(Request::Search { query, limit }, calls.0),
        protocol::calls(Request::Complete { prefix, token }, calls.1),
    ensures
        calls.0.method == Method::SearchQuery,
        gives_words(calls.0, "query"@, query@),
        gives_number(calls.0, "limit"@, limit as int),
        calls.1.method == Method::ContactsComplete,
        gives_words(calls.1, "prefix"@, prefix@),
{
    lemma_names();
    lemma_under(Request::Search { query, limit }, calls.0, 0);
    lemma_under(Request::Search { query, limit }, calls.0, 1);
    lemma_under(Request::Complete { prefix, token }, calls.1, 0);
}

/// A task is started of the kind and on what was chosen.
pub proof fn a_task_is_started_on_what_was_chosen(
    source: usize,
    account: i64,
    calls: (Call, Call, Call),
)
    requires
        protocol::calls(Request::StartImport { source }, calls.0),
        protocol::calls(Request::StartIndex, calls.1),
        protocol::calls(Request::StartSync { account }, calls.2),
    ensures
        calls.0.method == Method::JobsStart,
        gives_words(calls.0, "kind"@, "import"@),
        gives_number(calls.0, "source"@, source as int),
        calls.1.method == Method::JobsStart,
        gives_words(calls.1, "kind"@, "index"@),
        calls.2.method == Method::JobsStart,
        gives_words(calls.2, "kind"@, "sync"@),
        gives_number(calls.2, "account"@, account as int),
{
    lemma_names();
    lemma_under(Request::StartImport { source }, calls.0, 0);
    lemma_under(Request::StartImport { source }, calls.0, 1);
    lemma_under(Request::StartIndex, calls.1, 0);
    lemma_under(Request::StartSync { account }, calls.2, 0);
    lemma_under(Request::StartSync { account }, calls.2, 1);
}

/// A signature is read and written for its account, a draft is thrown away by its number, and a
/// part is taken up of its message.
pub proof fn a_signature_a_draft_and_a_part_are_named(
    account: i64,
    signature: Option<Document>,
    id: i64,
    part: usize,
    calls: (Call, Call, Call, Call),
)
    requires
        protocol::calls(Request::Signature { account }, calls.0),
        protocol::calls(Request::SetSignature { account, signature }, calls.1),
        protocol::calls(Request::DeleteDraft { id }, calls.2),
        protocol::calls(Request::StagePart { id, part }, calls.3),
    ensures
        calls.0.method == Method::AccountsSignature,
        gives_number(calls.0, "account"@, account as int),
        calls.1.method == Method::AccountsSetSignature,
        gives_number(calls.1, "account"@, account as int),
        match signature {
            Some(document) => {
                &&& exists|i: int| is_under(calls.1, "signature"@, i)
                &&& forall|i: int| #[trigger]
                    is_under(calls.1, "signature"@, i) ==> (param(calls.1, i) matches
                        Param::Signature(it) && *it == document)
            },
            None => gives_nothing(calls.1, "signature"@),
        },
        calls.2.method == Method::DraftsDelete,
        gives_number(calls.2, "id"@, id as int),
        calls.3.method == Method::MessagesStagePart,
        gives_number(calls.3, "id"@, id as int),
        gives_number(calls.3, "part"@, part as int),
{
    lemma_names();
    lemma_under(Request::Signature { account }, calls.0, 0);
    lemma_under(Request::SetSignature { account, signature }, calls.1, 0);
    lemma_under(Request::SetSignature { account, signature }, calls.1, 1);
    lemma_under(Request::DeleteDraft { id }, calls.2, 0);
    lemma_under(Request::StagePart { id, part }, calls.3, 0);
    lemma_under(Request::StagePart { id, part }, calls.3, 1);
}

/// A list is read by the method that lists it.
pub proof fn a_list_is_read_by_its_own_method(
    lists: (Call, Call, Call, Call),
    more: (Call, Call, Call),
)
    requires
        protocol::calls(Request::Folders, lists.0),
        protocol::calls(Request::Accounts, lists.1),
        protocol::calls(Request::Outbox, lists.2),
        protocol::calls(Request::Drafts, lists.3),
        protocol::calls(Request::Jobs, more.0),
        protocol::calls(Request::Sources, more.1),
        protocol::calls(Request::Hello, more.2),
    ensures
        lists.0.method == Method::FoldersList,
        lists.1.method == Method::AccountsList,
        lists.2.method == Method::OutboxList,
        lists.3.method == Method::DraftsList,
        more.0.method == Method::JobsList,
        more.1.method == Method::JobsSources,
        more.2.method == Method::ServerHello,
{
}

} // verus!
