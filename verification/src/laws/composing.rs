//! The window in which a message is written: what is sent, kept, attached and completed.
use crate::actions;
use crate::actions::Wish;
use crate::compose::Compose;
use crate::dto::Attached;
use crate::laws::sending;
use crate::protocol::Request;
use crate::recipients;
use crate::shell::{Field, Shell, Writing};
use crate::signature::{Editor, Outcome};
use crate::text;
use crate::writing;
use crate::writing::Pending;
use vstd::prelude::*;
use vstd::string::*;

verus! {

/// Whether a message names somebody, in one of its three fields.
pub open spec fn names_somebody(it: Compose) -> bool {
    recipients::recipients_of(it.to@).len() + recipients::recipients_of(it.cc@).len()
        + recipients::recipients_of(it.bcc@).len() > 0
}

/// The files of a message without the one of a rank, where it has one there.
pub open spec fn without_file(files: Seq<Attached>, rank: Option<usize>) -> Seq<Attached> {
    match rank {
        Some(rank) if rank < files.len() => files.take(rank as int) + files.skip(rank + 1),
        _ => files,
    }
}

/// Whether a message is another without the file of a rank.
pub open spec fn reads_without(it: Compose, draft: Compose, rank: Option<usize>) -> bool {
    &&& sending::reads_as(Compose { attachments: draft.attachments, ..it }, draft)
    &&& it.attachments@ == without_file(draft.attachments@, rank)
}

proof fn lemma_lighter(draft: Compose, rank: Option<usize>, lighter: Compose)
    requires
        writing::detached(draft, rank, lighter),
    ensures
        reads_without(lighter, draft, rank),
        names_somebody(lighter) == names_somebody(draft),
{
    match rank {
        Some(at) if at < draft.attachments@.len() => {
            let files = draft.attachments@;
            assert(files.remove(at as int) == files.take(at as int) + files.skip(at + 1));
        },
        _ => {},
    }
}

/// Whether something is asked for among the requests that were added.
pub open spec fn adds(before: Seq<Request>, after: Seq<Request>, i: int) -> bool {
    before.len() <= i < after.len()
}

/// A message is sent where the user wants it, somebody is named and none is on its way already: as
/// the window holds it, without the file that was just taken off. The window waits for the queue.
#[verifier::spinoff_prover]
pub proof fn what_is_sent_is_what_the_window_holds(
    shell: &mut Shell,
    draft: Compose,
    pending: Pending,
    open: bool,
    out: &mut Vec<Request>,
)
    requires
        call_ensures(Shell::settle_compose, (shell, draft, pending, open, out), ()),
        pending.send,
        names_somebody(draft),
        !old(shell).writing.sending,
    ensures
        exists|i: int| #[trigger]
            adds(old(out)@, final(out)@, i) && (final(out)@[i] matches Request::Send(it)
                && reads_without(*it, draft, pending.detach)),
        final(shell).writing.sending,
{
    let (lighter, written, completed) = choose|
        lighter: Compose,
        written: Compose,
        completed: Writing,
    |
        #[trigger] writing::compose_settled(
            *old(shell),
            draft,
            pending,
            open,
            *final(shell),
            lighter,
            written,
            completed,
        ) && actions::asked(
            old(out)@,
            final(out)@,
            writing::compose_asks(*old(shell), pending, open, lighter, written),
        );
    lemma_lighter(draft, pending.detach, lighter);
    let wishes = writing::compose_asks(*old(shell), pending, open, lighter, written);
    let k = pending.dropped@.len() as int;
    assert(wishes[k] == Wish::Send(lighter));
    let i = old(out)@.len() + k;
    assert(actions::grants(final(out)@[i], wishes[k]));
    assert(adds(old(out)@, final(out)@, i));
}

/// Nothing is sent that the user did not want to send, that names nobody, or while a message is on
/// its way to the queue.
#[verifier::spinoff_prover]
pub proof fn nothing_is_sent_unasked(
    shell: &mut Shell,
    draft: Compose,
    pending: Pending,
    open: bool,
    out: &mut Vec<Request>,
)
    requires
        call_ensures(Shell::settle_compose, (shell, draft, pending, open, out), ()),
        !pending.send || !names_somebody(draft) || old(shell).writing.sending,
    ensures
        forall|i: int| #[trigger] adds(old(out)@, final(out)@, i) ==> !(final(out)@[i] is Send),
        final(shell).writing.sending == old(shell).writing.sending,
{
    let (lighter, written, completed) = choose|
        lighter: Compose,
        written: Compose,
        completed: Writing,
    |
        #[trigger] writing::compose_settled(
            *old(shell),
            draft,
            pending,
            open,
            *final(shell),
            lighter,
            written,
            completed,
        ) && actions::asked(
            old(out)@,
            final(out)@,
            writing::compose_asks(*old(shell), pending, open, lighter, written),
        );
    lemma_lighter(draft, pending.detach, lighter);
    let wishes = writing::compose_asks(*old(shell), pending, open, lighter, written);
    assert forall|i: int| #[trigger] adds(old(out)@, final(out)@, i) implies !(
    final(out)@[i] is Send) by {
        let k = i - old(out)@.len();
        assert(actions::grants(final(out)@[old(out)@.len() + k], wishes[k]));
    }
}

/// A window that is closed on a message that is not sent has it kept as a draft, as it stands, and
/// shows it no more; one that stays open goes on showing it.
#[verifier::spinoff_prover]
pub proof fn a_closed_window_keeps_its_message(
    shell: &mut Shell,
    draft: Compose,
    pending: Pending,
    open: bool,
    out: &mut Vec<Request>,
)
    requires
        call_ensures(Shell::settle_compose, (shell, draft, pending, open, out), ()),
        !pending.send,
        pending.insert is None,
    ensures
        open ==> (final(shell).writing.compose matches Some(it) && reads_without(
            it,
            draft,
            pending.detach,
        )),
        !open ==> final(shell).writing.compose is None && exists|i: int| #[trigger]
            adds(old(out)@, final(out)@, i) && (final(out)@[i] matches Request::SaveDraft(it)
                && reads_without(*it, draft, pending.detach)),
        open ==> forall|i: int| #[trigger]
            adds(old(out)@, final(out)@, i) ==> !(final(out)@[i] is SaveDraft),
        final(shell).list == old(shell).list,
        final(shell).reader == old(shell).reader,
        final(shell).writing.drafts == old(shell).writing.drafts,
{
    let (lighter, written, completed) = choose|
        lighter: Compose,
        written: Compose,
        completed: Writing,
    |
        #[trigger] writing::compose_settled(
            *old(shell),
            draft,
            pending,
            open,
            *final(shell),
            lighter,
            written,
            completed,
        ) && actions::asked(
            old(out)@,
            final(out)@,
            writing::compose_asks(*old(shell), pending, open, lighter, written),
        );
    lemma_lighter(draft, pending.detach, lighter);
    assert(written == lighter);
    let wishes = writing::compose_asks(*old(shell), pending, open, lighter, written);
    if !open {
        let k = wishes.len() - 1;
        assert(wishes[k] == Wish::Save(written));
        let i = old(out)@.len() + k;
        assert(actions::grants(final(out)@[i], wishes[k]));
        assert(adds(old(out)@, final(out)@, i));
    } else {
        assert forall|i: int| #[trigger] adds(old(out)@, final(out)@, i) implies !(
        final(out)@[i] is SaveDraft) by {
            let k = i - old(out)@.len();
            assert(actions::grants(final(out)@[old(out)@.len() + k], wishes[k]));
        }
    }
}

/// Every file that was dropped on the window is put in the store, in order, by its own path.
#[verifier::spinoff_prover]
pub proof fn every_dropped_file_is_put_in_the_store(
    shell: &mut Shell,
    draft: Compose,
    pending: Pending,
    open: bool,
    out: &mut Vec<Request>,
)
    requires
        call_ensures(Shell::settle_compose, (shell, draft, pending, open, out), ()),
    ensures
        final(out)@.len() >= old(out)@.len() + pending.dropped@.len(),
        forall|k: int|
            0 <= k < pending.dropped@.len() ==> (final(out)@[old(out)@.len() + k] matches
                Request::Attach { path } && path@ == (#[trigger] pending.dropped@[k])@),
        forall|i: int| 0 <= i < old(out)@.len() ==> final(out)@[i] == old(out)@[i],
{
    let (lighter, written, completed) = choose|
        lighter: Compose,
        written: Compose,
        completed: Writing,
    |
        #[trigger] writing::compose_settled(
            *old(shell),
            draft,
            pending,
            open,
            *final(shell),
            lighter,
            written,
            completed,
        ) && actions::asked(
            old(out)@,
            final(out)@,
            writing::compose_asks(*old(shell), pending, open, lighter, written),
        );
    let wishes = writing::compose_asks(*old(shell), pending, open, lighter, written);
    assert forall|k: int| 0 <= k < pending.dropped@.len() implies (final(out)@[old(out)@.len() + k]
        matches Request::Attach { path } && path@ == (#[trigger] pending.dropped@[k])@) by {
        assert(wishes[k] == Wish::Exactly(Request::Attach { path: pending.dropped@[k] }));
        assert(actions::grants(final(out)@[old(out)@.len() + k], wishes[k]));
    }
    assert forall|i: int| 0 <= i < old(out)@.len() implies final(out)@[i] == old(out)@[i] by {
        assert(final(out)@.take(old(out)@.len() as int)[i] == final(out)@[i]);
    }
}

// ---------------------------------------------------------------------------------------------
// Completion
// ---------------------------------------------------------------------------------------------

/// A proposal that is clicked goes into its own field, in place of what was being typed there: the
/// recipients that were there stay, and no other field moves.
pub proof fn a_proposal_goes_into_its_field(
    writing: &mut Writing,
    draft: &mut Compose,
    active: Option<(Field, String)>,
    field: Field,
    chosen: String,
    out: &mut Vec<Request>,
)
    requires
        call_ensures(
            Writing::settle_completion,
            (writing, draft, active, Some((field, chosen)), out),
            (),
        ),
    ensures
        field is To ==> recipients::recipients_of(final(draft).to@) == recipients::recipients_of(
            recipients::before_fragment(old(draft).to@),
        ) + recipients::recipients_of(chosen@),
        field is Cc ==> recipients::recipients_of(final(draft).cc@) == recipients::recipients_of(
            recipients::before_fragment(old(draft).cc@),
        ) + recipients::recipients_of(chosen@),
        field is Bcc ==> recipients::recipients_of(final(draft).bcc@) == recipients::recipients_of(
            recipients::before_fragment(old(draft).bcc@),
        ) + recipients::recipients_of(chosen@),
        !(field is To) ==> final(draft).to@ == old(draft).to@,
        !(field is Cc) ==> final(draft).cc@ == old(draft).cc@,
        !(field is Bcc) ==> final(draft).bcc@ == old(draft).bcc@,
        final(draft).subject@ == old(draft).subject@,
        final(draft).text@ == old(draft).text@,
        final(draft).attachments@ == old(draft).attachments@,
        final(draft).account == old(draft).account,
        final(draft).draft == old(draft).draft,
        final(writing).suggestions@.len() == 0,
        final(writing).suggesting is None,
        final(out)@ == old(out)@,
{
    recipients::choosing_keeps_the_recipients_already_typed(old(draft).to@, chosen@);
    recipients::choosing_keeps_the_recipients_already_typed(old(draft).cc@, chosen@);
    recipients::choosing_keeps_the_recipients_already_typed(old(draft).bcc@, chosen@);
    assert(final(out)@.take(old(out)@.len() as int) == final(out)@);
}

/// What is being typed in the field that has the focus is completed: the proposals are asked for
/// by what stands behind its last separator, under a token of their own, and the message does not
/// move.
pub proof fn what_is_being_typed_is_completed(
    writing: &mut Writing,
    draft: &mut Compose,
    field: Field,
    typed: String,
    out: &mut Vec<Request>,
)
    requires
        call_ensures(
            Writing::settle_completion,
            (writing, draft, Some((field, typed)), None, out),
            (),
        ),
        old(writing).suggesting != Some(field) || old(writing).suggest_for@
            != recipients::fragment_of(typed@),
    ensures
        final(out)@.len() == old(out)@.len() + 1,
        final(out)@.last() matches Request::Complete { prefix, token } && prefix@
            == recipients::fragment_of(typed@) && token == final(writing).suggest_token && token
            != old(writing).suggest_token,
        final(writing).suggesting == Some(field),
        *final(draft) == *old(draft),
        final(writing).compose == old(writing).compose,
{
    let wishes = writing::completion_asks(*old(writing), Some((field, typed)), None);
    assert(actions::grants(final(out)@[old(out)@.len() + 0int], wishes[0]));
}

// ---------------------------------------------------------------------------------------------
// The signature
// ---------------------------------------------------------------------------------------------

/// A signature that is saved is the one that the editor holds, for the account of the editor, and
/// its window stays until it is stored; one that is given up leaves nothing behind.
pub proof fn the_signature_that_is_saved_is_the_one_in_the_editor(
    shell: &mut Shell,
    editor: Editor,
    outcome: Outcome,
    open: bool,
    out: &mut Vec<Request>,
)
    requires
        call_ensures(Shell::settle_signature, (shell, editor, outcome, open, out), ()),
    ensures
        outcome is Save ==> final(out)@.len() == old(out)@.len() + 1 && (final(out)@.last() matches
            Request::SetSignature { account, signature } && account == editor.account && (
        signature matches Some(it) && it.text@ == editor.document.text@ && it.spans@
            == editor.document.spans@ && it.blocks@ == editor.document.blocks@)) && (
        final(shell).writing.editor matches Some(after) && after.saving && after.document
            == editor.document && after.account == editor.account),
        !(outcome is Save) ==> final(out)@ == old(out)@,
        outcome is Cancel ==> final(shell).writing.editor is None,
        outcome is Idle && open ==> final(shell).writing.editor == Some(editor),
        outcome is Idle && !open ==> final(shell).writing.editor is None,
        final(shell).writing.compose == old(shell).writing.compose,
        final(shell).writing.signatures == old(shell).writing.signatures,
        final(shell).list == old(shell).list,
{
    if outcome is Save {
        assert(actions::grants(
            final(out)@[old(out)@.len() + 0int],
            seq![Wish::Sign(editor.account, editor.document)][0],
        ));
    } else {
        assert(final(out)@.take(old(out)@.len() as int) == final(out)@);
    }
}

/// The signature of the account that writes is asked for, once, and nothing else moves.
pub proof fn the_signature_of_the_account_is_asked_for(
    shell: &mut Shell,
    account: i64,
    out: &mut Vec<Request>,
)
    requires
        call_ensures(Shell::prepare_compose, (shell, account, out), ()),
    ensures
        !old(shell).writing.signatures@.dom().contains(account) ==> final(out)@ == old(out)@.push(
            Request::Signature { account },
        ),
        old(shell).writing.signatures@.dom().contains(account) ==> final(out)@ == old(out)@
            && *final(shell) == *old(shell),
        final(shell).writing.signatures@.dom().contains(account),
        final(shell).writing.compose == old(shell).writing.compose,
{
    if old(shell).writing.signatures@.dom().contains(account) {
        assert(final(out)@ == old(out)@);
    } else {
        assert(old(out)@ + seq![Request::Signature { account }] == old(out)@.push(
            Request::Signature { account },
        ));
    }
}

/// A blank message is blank: nothing is in it but the wish to sign.
pub proof fn a_new_message_is_blank(shell: &mut Shell)
    requires
        call_ensures(Shell::start_compose, (shell,), ()),
    ensures
        final(shell).writing.compose != old(shell).writing.compose ==> (
        final(shell).writing.compose matches Some(it) && it.to@.len() == 0 && it.cc@.len() == 0
            && it.bcc@.len() == 0 && it.subject@.len() == 0 && it.text@.len() == 0
            && it.in_reply_to is None && it.references@.len() == 0 && it.attachments@.len() == 0
            && it.sign && it.draft is None),
        final(shell).list == old(shell).list,
        final(shell).reader == old(shell).reader,
{
    reveal_strlit("");
}

/// A proposal that was clicked is in its field when the window is drawn again, in place of what was
/// being typed there; nothing else of the message moves, and a window that closes keeps it so.
#[verifier::spinoff_prover]
pub proof fn a_clicked_proposal_stays_in_the_message(
    shell: &mut Shell,
    draft: Compose,
    pending: Pending,
    open: bool,
    out: &mut Vec<Request>,
    field: Field,
    chosen: String,
    to: String,
    cc: String,
    bcc: String,
)
    requires
        call_ensures(Shell::settle_compose, (shell, draft, pending, open, out), ()),
        pending.insert == Some((field, chosen)),
        !pending.send,
        to@ == (if field == Field::To {
            recipients::replaced(draft.to@, chosen@)
        } else {
            draft.to@
        }),
        cc@ == (if field == Field::Cc {
            recipients::replaced(draft.cc@, chosen@)
        } else {
            draft.cc@
        }),
        bcc@ == (if field == Field::Bcc {
            recipients::replaced(draft.bcc@, chosen@)
        } else {
            draft.bcc@
        }),
    ensures
        open ==> (final(shell).writing.compose matches Some(it) && reads_without(
            it,
            Compose { to, cc, bcc, ..draft },
            pending.detach,
        )),
        !open ==> final(shell).writing.compose is None && final(out)@.len() > old(out)@.len() && (
        final(out)@.last() matches Request::SaveDraft(kept) && reads_without(
            *kept,
            Compose { to, cc, bcc, ..draft },
            pending.detach,
        )),
{
    let (lighter, written, completed) = choose|
        lighter: Compose,
        written: Compose,
        completed: Writing,
    |
        #[trigger] writing::compose_settled(
            *old(shell),
            draft,
            pending,
            open,
            *final(shell),
            lighter,
            written,
            completed,
        ) && actions::asked(
            old(out)@,
            final(out)@,
            writing::compose_asks(*old(shell), pending, open, lighter, written),
        );
    lemma_lighter(draft, pending.detach, lighter);
    let wishes = writing::compose_asks(*old(shell), pending, open, lighter, written);
    if !open {
        let k = wishes.len() - 1;
        assert(wishes[k] == Wish::Save(written));
        assert(actions::grants(final(out)@[old(out)@.len() + k], wishes[k]));
        assert(final(out)@.last() == final(out)@[old(out)@.len() + k]);
    }
}

/// The editor of the signature opens where it was wanted, on the signature of the account of the
/// message as it is known; one that is open stays as it is, and none opens unasked. The user is told
/// of the files that were dropped.
#[verifier::spinoff_prover]
pub proof fn the_editor_opens_on_what_is_known(
    shell: &mut Shell,
    draft: Compose,
    pending: Pending,
    open: bool,
    out: &mut Vec<Request>,
)
    requires
        call_ensures(Shell::settle_compose, (shell, draft, pending, open, out), ()),
    ensures
        !pending.edit_signature || old(shell).writing.editor is Some ==> final(shell).writing.editor
            == old(shell).writing.editor,
        pending.edit_signature && old(shell).writing.editor is None ==> {
            let known = old(shell).writing.signatures@;
            &&& final(shell).writing.editor matches Some(editor)
            &&& editor.account == draft.account
            &&& !editor.saving
            &&& editor.buffer@ == editor.document.text@
            &&& known.dom().contains(draft.account) ==> (known[draft.account] matches Some(document)
                ==> editor.document.text@ == document.text@ && editor.document.spans@
                == document.spans@ && editor.document.blocks@ == document.blocks@)
            &&& !known.dom().contains(draft.account) ==> editor.document.text@.len() == 0
        },
        pending.dropped@.len() > 0 ==> (final(shell).notices.status matches Some(said)
            && text::starts(said@, pending.dropped@[pending.dropped@.len() - 1]@)),
        pending.dropped@.len() == 0 ==> final(shell).notices.status == old(shell).notices.status,
        final(shell).list == old(shell).list,
        final(shell).reader == old(shell).reader,
        final(shell).panels == old(shell).panels,
{
    let (lighter, written, completed) = choose|
        lighter: Compose,
        written: Compose,
        completed: Writing,
    |
        #[trigger] writing::compose_settled(
            *old(shell),
            draft,
            pending,
            open,
            *final(shell),
            lighter,
            written,
            completed,
        ) && actions::asked(
            old(out)@,
            final(out)@,
            writing::compose_asks(*old(shell), pending, open, lighter, written),
        );
    lemma_lighter(draft, pending.detach, lighter);
    if pending.dropped@.len() > 0 {
        let last = pending.dropped@[pending.dropped@.len() - 1]@;
        let said = final(shell).notices.status->0@;
        assert(said.take(last.len() as int) == last);
    }
}

} // verus!
