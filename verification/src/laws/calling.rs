//! The calls: who serves a request, what its result is read as, and what a log tells of it.
use crate::compose::Compose;
use crate::dto::Attached;
use crate::printed;
use crate::protocol;
use crate::protocol::{Decision, Decoded, Reply, Request, Route, Shape, SourceOf};
use crate::settings;
use crate::settings::{AccountDetail, AccountForm, ConsentForm};
use crate::text;
use vstd::prelude::*;
use vstd::string::*;

verus! {

/// What holds a secret, a path or an account never goes through a call of the service; everything
/// else does, and its result is read.
pub proof fn a_secret_never_goes_through_a_call(request: &Request, route: Route, shape: Option<Shape>)
    requires
        call_ensures(protocol::route, (request,), route),
        call_ensures(protocol::shape, (request,), shape),
    ensures
        *request is DeclareAccount || *request is SetSubmission || *request is ForgetAccount
            || *request is AccountsDetail <==> route == Route::Accounts,
        *request is Consent <==> route == Route::Consent,
        *request is Attach <==> route == Route::Stage,
        *request is Bootstrap <==> route == Route::FirstScreen,
        route == Route::Call <==> shape is Some,
{
}

/// A result is read in the shape of what was asked for: a list as a list of those, a message as a
/// message, and nothing where nothing is wanted.
pub proof fn a_result_is_read_as_what_was_asked_for(request: &Request, shape: Option<Shape>)
    requires
        call_ensures(protocol::shape, (request,), shape),
    ensures
        *request is Page ==> shape == Some(Shape::Page),
        *request is Folders ==> shape == Some(Shape::Folders),
        *request is Open ==> shape == Some(Shape::Message),
        *request is Thread ==> shape == Some(Shape::Thread),
        *request is Source ==> shape == Some(Shape::Source),
        *request is Search ==> shape == Some(Shape::Results),
        *request is Drafts ==> shape == Some(Shape::Drafts),
        *request is SaveDraft ==> shape == Some(Shape::Draft),
        *request is Send ==> shape == Some(Shape::Queued),
        *request is Outbox ==> shape == Some(Shape::Outbox),
        *request is Cancel ==> shape == Some(Shape::Cancelled),
        *request is Complete ==> shape == Some(Shape::Suggestions),
        *request is Signature || *request is SetSignature ==> shape == Some(Shape::Signature),
        *request is MarkRead || *request is Decide || *request is Retry || *request is DeleteDraft
            ==> shape == Some(Shape::Nothing),
{
}

/// A result of the wanted shape is used, and one of another shape is not: it is refused, in its own
/// words where it could not be read.
pub proof fn a_result_of_the_wanted_shape_is_used(
    request: Request,
    decoded: Decoded,
    shape: Option<Shape>,
    used: Result<Reply, String>,
)
    requires
        call_ensures(protocol::shape, (&request,), shape),
        call_ensures(protocol::decode, (request, decoded), used),
    ensures
        shape is None ==> used is Err,
        shape == Some(Shape::Nothing) ==> used is Ok,
        decoded is Unreadable && shape is Some && shape != Some(Shape::Nothing) ==> used is Err,
        decoded is Page ==> (used is Ok ==> request is Page || shape == Some(Shape::Nothing)),
        request is Page && decoded is Page ==> used is Ok,
        request is Drafts && decoded is Drafts ==> used is Ok,
        request is Drafts && decoded is Outbox ==> used is Err,
        decoded matches Decoded::Unreadable(why) ==> shape is Some ==> (used matches Err(words)
            ==> text::occurs(why@, words@)),
{
    match decoded {
        Decoded::Unreadable(why) => {
            let lead = "réponse inattendue : "@;
            let all = lead + why@;
            let at = lead.len() as int;
            assert(all.subrange(at, at + why@.len()) == why@);
        },
        _ => {},
    }
}

/// What was done here is told as it ended: a file that was staged is attached, a sentence is told,
/// the accounts are listed; and a failure here is none of the transport.
pub proof fn what_was_done_here_is_told_as_it_ended(
    file: Attached,
    attached: Reply,
    said: String,
    written: Reply,
    found: Vec<AccountDetail>,
    accounts: Reply,
    why: String,
    a: Reply,
    b: Reply,
    c: Reply,
)
    requires
        call_ensures(protocol::staged, (Ok(file),), attached),
        call_ensures(protocol::wrote, (Ok(said),), written),
        call_ensures(protocol::listed, (Ok(found),), accounts),
        call_ensures(protocol::staged, (Err(why),), a),
        call_ensures(protocol::wrote, (Err(why),), b),
        call_ensures(protocol::listed, (Err(why),), c),
    ensures
        attached == Reply::Attached(file),
        written == Reply::AccountWritten(said),
        accounts == Reply::AccountsDetail(found),
        a matches Reply::Failed { what: _, message, transport } && message@ == why@ && !transport,
        b matches Reply::Failed { what: _, message, transport } && message@ == why@ && !transport,
        c matches Reply::Failed { what: _, message, transport } && message@ == why@ && !transport,
{
}

/// The word of a decision names it, and no other word does.
pub proof fn the_word_of_a_decision_names_it(
    decision: Decision,
    word: &'static str,
    read: Option<Decision>,
    other: &str,
    known: Option<Decision>,
)
    requires
        call_ensures(Decision::as_str, (decision,), word),
        call_ensures(Decision::parse, (word,), read),
        call_ensures(Decision::parse, (other,), known),
    ensures
        read == Some(decision),
        known == Some(decision) ==> other@ == word@,
        decision == Decision::Resend ==> word@ == "resend"@,
        decision == Decision::Accept ==> word@ == "accept"@,
{
    reveal_strlit("resend");
    reveal_strlit("accept");
    assert("resend"@[0] == 'r');
    assert("accept"@[0] == 'a');
}

proof fn lemma_said(a: Seq<char>, needle: Seq<char>, b: Seq<char>)
    ensures
        text::occurs(needle, a + needle + b),
{
    let all = a + needle + b;
    let at = a.len() as int;
    assert(all.subrange(at, at + needle.len()) == needle);
}

/// A log tells two forms that differ by their secrets alone the same way.
pub proof fn a_log_tells_no_secret(
    form: AccountForm,
    secret: String,
    consent: ConsentForm,
    client_secret: String,
    a: String,
    b: String,
    c: String,
    d: String,
)
    requires
        form.secret@.len() > 0,
        secret@.len() > 0,
        consent.client_secret@.len() > 0,
        client_secret@.len() > 0,
        call_ensures(protocol::logged, (&Request::DeclareAccount(Box::new(form)),), a),
        call_ensures(
            protocol::logged,
            (&Request::DeclareAccount(Box::new(AccountForm { secret, ..form })),),
            b,
        ),
        call_ensures(protocol::logged, (&Request::Consent(Box::new(consent)),), c),
        call_ensures(
            protocol::logged,
            (&Request::Consent(Box::new(ConsentForm { client_secret, ..consent })),),
            d,
        ),
    ensures
        a@ == b@,
        c@ == d@,
{
    protocol::a_log_never_tells_a_secret(form, secret, consent, client_secret);
}

/// A log tells a request by its name and its fields, each under its own name.
pub proof fn a_log_tells_a_request_by_its_fields(
    id: i64,
    folder: i64,
    read: String,
    remote_images: bool,
    opened: String,
    query: String,
    limit: u32,
    searched: String,
    cancelled: String,
    source: String,
)
    requires
        call_ensures(protocol::logged, (&Request::MarkRead { id, folder },), read),
        call_ensures(protocol::logged, (&Request::Open { id, remote_images },), opened),
        call_ensures(protocol::logged, (&Request::Search { query, limit },), searched),
        call_ensures(protocol::logged, (&Request::Cancel { id },), cancelled),
        call_ensures(
            protocol::logged,
            (&Request::Source { of: SourceOf::Outgoing(id) },),
            source,
        ),
    ensures
        read@ == "MarkRead"@ + " { "@ + "id"@ + ": "@ + text::signed_dec(id as int) + ", "@
            + "folder"@ + ": "@ + text::signed_dec(folder as int) + " }"@,
        text::starts(opened@, "Open"@ + " { "@ + "id"@ + ": "@ + text::signed_dec(id as int)),
        remote_images ==> text::occurs("remote_images"@ + ": "@ + "true"@, opened@),
        !remote_images ==> text::occurs("remote_images"@ + ": "@ + "false"@, opened@),
        text::occurs("query"@ + ": "@ + settings::debug_of(query@), searched@),
        text::occurs("limit"@ + ": "@ + text::dec(limit as nat), searched@),
        cancelled@ == "Cancel"@ + " { "@ + "id"@ + ": "@ + text::signed_dec(id as int) + " }"@,
        text::occurs("Outgoing"@ + "("@ + text::signed_dec(id as int), source@),
{
    let lead = "Open"@ + " { "@ + "id"@ + ": "@ + text::signed_dec(id as int);
    assert(opened@.take(lead.len() as int) == lead);
    let flag = if remote_images {
        "true"@
    } else {
        "false"@
    };
    let images = "remote_images"@ + ": "@ + flag;
    assert(opened@ == (lead + ", "@) + images + " }"@);
    lemma_said(lead + ", "@, images, " }"@);
    let words = "query"@ + ": "@ + settings::debug_of(query@);
    let bound = "limit"@ + ": "@ + text::dec(limit as nat);
    assert(searched@ == ("Search"@ + " { "@) + words + (", "@ + bound + " }"@));
    lemma_said("Search"@ + " { "@, words, ", "@ + bound + " }"@);
    assert(searched@ == ("Search"@ + " { "@ + words + ", "@) + bound + " }"@);
    lemma_said("Search"@ + " { "@ + words + ", "@, bound, " }"@);
    let of = "Outgoing"@ + "("@ + text::signed_dec(id as int);
    assert(source@ == ("Source"@ + " { "@ + "of"@ + ": "@) + of + (")"@ + " }"@));
    lemma_said("Source"@ + " { "@ + "of"@ + ": "@, of, ")"@ + " }"@);
}

proof fn lemma_longer(all: Seq<char>, more: Seq<char>, first: Seq<char>)
    requires
        text::starts(all, first),
    ensures
        text::starts(all + more, first),
{
    assert((all + more).take(first.len() as int) == all.take(first.len() as int));
}

proof fn lemma_starts(a: Seq<char>, b: Seq<char>)
    ensures
        text::starts(a + b, a),
{
    assert((a + b).take(a.len() as int) == a);
}

proof fn lemma_within(all: Seq<char>, before: Seq<char>, needle: Seq<char>, lead: Seq<char>)
    requires
        text::starts(all, before + needle),
    ensures
        text::occurs(needle, lead + all),
{
    let whole = lead + all;
    let at = (lead.len() + before.len()) as int;
    let begun = before + needle;
    assert(all.take(begun.len() as int) == begun);
    let inner = all.take(begun.len() as int);
    assert(whole.subrange(at, at + needle.len()) == inner.skip(before.len() as int));
    assert(begun.skip(before.len() as int) == needle);
}

proof fn lemma_message(it: Compose, lead: Seq<char>)
    ensures
        text::occurs(", to: "@ + settings::debug_of(it.to@), lead + printed::compose_text(it)),
        text::occurs(", cc: "@ + settings::debug_of(it.cc@), lead + printed::compose_text(it)),
        text::occurs(", bcc: "@ + settings::debug_of(it.bcc@), lead + printed::compose_text(it)),
        text::occurs(
            ", subject: "@ + settings::debug_of(it.subject@),
            lead + printed::compose_text(it),
        ),
        text::occurs(", text: "@ + settings::debug_of(it.text@), lead + printed::compose_text(it)),
{
    let p0 = "Compose { account: "@ + text::signed_dec(it.account as int);
    let h0 = p0 + ", to: "@;
    let p1 = h0 + settings::debug_of(it.to@);
    let h1 = p1 + ", cc: "@;
    let p2 = h1 + settings::debug_of(it.cc@);
    let h2 = p2 + ", bcc: "@;
    let p3 = h2 + settings::debug_of(it.bcc@);
    let h3 = p3 + ", subject: "@;
    let p4 = h3 + settings::debug_of(it.subject@);
    let h4 = p4 + ", text: "@;
    let p5 = h4 + settings::debug_of(it.text@);
    let q0 = p5;
    let q1 = q0 + ", in_reply_to: "@;
    let q2 = q1 + printed::opt_words_text(it.in_reply_to);
    let q3 = q2 + ", references: "@;
    let q4 = q3 + printed::words_list_text(it.references@);
    let q5 = q4 + ", attachments: "@;
    let q6 = q5 + printed::files_text(it.attachments@);
    let q7 = q6 + ", sign: "@;
    let q8 = q7 + printed::flag_text(it.sign);
    let q9 = q8 + ", draft: "@;
    let q10 = q9 + printed::opt_number_text(it.draft);
    let q11 = q10 + " }"@;
    assert(printed::compose_text(it) == q11);
    let all = printed::compose_text(it);
    assert(p1 == p0 + (", to: "@ + settings::debug_of(it.to@)));
    assert(p2 == p1 + (", cc: "@ + settings::debug_of(it.cc@)));
    assert(p3 == p2 + (", bcc: "@ + settings::debug_of(it.bcc@)));
    assert(p4 == p3 + (", subject: "@ + settings::debug_of(it.subject@)));
    assert(p5 == p4 + (", text: "@ + settings::debug_of(it.text@)));
    lemma_starts(q0, ", in_reply_to: "@);
    lemma_longer(q1, printed::opt_words_text(it.in_reply_to), q0);
    lemma_longer(q2, ", references: "@, q0);
    lemma_longer(q3, printed::words_list_text(it.references@), q0);
    lemma_longer(q4, ", attachments: "@, q0);
    lemma_longer(q5, printed::files_text(it.attachments@), q0);
    lemma_longer(q6, ", sign: "@, q0);
    lemma_longer(q7, printed::flag_text(it.sign), q0);
    lemma_longer(q8, ", draft: "@, q0);
    lemma_longer(q9, printed::opt_number_text(it.draft), q0);
    lemma_longer(q10, " }"@, q0);
    assert(text::starts(all, p5));
    lemma_within(all, p4, ", text: "@ + settings::debug_of(it.text@), lead);
    lemma_shorter(all, p4, ", text: "@ + settings::debug_of(it.text@));
    lemma_within(all, p3, ", subject: "@ + settings::debug_of(it.subject@), lead);
    lemma_shorter(all, p3, ", subject: "@ + settings::debug_of(it.subject@));
    lemma_within(all, p2, ", bcc: "@ + settings::debug_of(it.bcc@), lead);
    lemma_shorter(all, p2, ", bcc: "@ + settings::debug_of(it.bcc@));
    lemma_within(all, p1, ", cc: "@ + settings::debug_of(it.cc@), lead);
    lemma_shorter(all, p1, ", cc: "@ + settings::debug_of(it.cc@));
    lemma_within(all, p0, ", to: "@ + settings::debug_of(it.to@), lead);
}

proof fn lemma_shorter(all: Seq<char>, first: Seq<char>, more: Seq<char>)
    requires
        text::starts(all, first + more),
    ensures
        text::starts(all, first),
{
    let both = first + more;
    assert(all.take(first.len() as int) == all.take(both.len() as int).take(first.len() as int));
    assert(both.take(first.len() as int) == first);
}

/// A log tells a message with each of its fields under its own name, and the same whether it is
/// sent or kept.
pub proof fn a_log_tells_a_message_by_its_fields(it: Compose, sent: String, kept: String)
    requires
        call_ensures(protocol::logged, (&Request::Send(Box::new(it)),), sent),
        call_ensures(protocol::logged, (&Request::SaveDraft(Box::new(it)),), kept),
    ensures
        text::starts(sent@, "Send"@),
        text::starts(kept@, "SaveDraft"@),
        sent@.skip("Send"@.len() as int) == kept@.skip("SaveDraft"@.len() as int),
        text::occurs(", to: "@ + settings::debug_of(it.to@), sent@),
        text::occurs(", cc: "@ + settings::debug_of(it.cc@), sent@),
        text::occurs(", bcc: "@ + settings::debug_of(it.bcc@), sent@),
        text::occurs(", subject: "@ + settings::debug_of(it.subject@), sent@),
        text::occurs(", text: "@ + settings::debug_of(it.text@), sent@),
{
    let inside = printed::compose_text(it);
    let lead = "Send"@ + "("@;
    assert(sent@ == lead + inside + ")"@);
    assert(sent@.take("Send"@.len() as int) == "Send"@);
    assert(kept@.take("SaveDraft"@.len() as int) == "SaveDraft"@);
    assert(sent@.skip("Send"@.len() as int) == "("@ + inside + ")"@);
    assert(kept@.skip("SaveDraft"@.len() as int) == "("@ + inside + ")"@);
    lemma_message(it, lead);
    lemma_still(", to: "@ + settings::debug_of(it.to@), lead + inside, ")"@);
    lemma_still(", cc: "@ + settings::debug_of(it.cc@), lead + inside, ")"@);
    lemma_still(", bcc: "@ + settings::debug_of(it.bcc@), lead + inside, ")"@);
    lemma_still(", subject: "@ + settings::debug_of(it.subject@), lead + inside, ")"@);
    lemma_still(", text: "@ + settings::debug_of(it.text@), lead + inside, ")"@);
}

proof fn lemma_still(needle: Seq<char>, all: Seq<char>, more: Seq<char>)
    requires
        text::occurs(needle, all),
    ensures
        text::occurs(needle, all + more),
{
    let at = choose|at: int|
        0 <= at && at + needle.len() <= all.len() && #[trigger] all.subrange(
            at,
            at + needle.len(),
        ) == needle;
    assert((all + more).subrange(at, at + needle.len()) == all.subrange(at, at + needle.len()));
}

} // verus!
