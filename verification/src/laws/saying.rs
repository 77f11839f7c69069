//! The small sentences and the small gestures: each is about what it was said of.
use crate::accounts::{AuthKind, Server};
use crate::cli::account;
use crate::cli::remote;
use crate::cli::reports;
use crate::cli::reports::Contact;
use crate::cli::send;
use crate::cli::send::Gesture;
use crate::cli::source;
use crate::compose::Compose;
use crate::dto::{Account, Job, Suggestion};
use crate::laws::composing;
use crate::laws::modes;
use crate::laws::reporting;
use crate::panes;
use crate::protocol::{Decision, Request, SourceOf};
use crate::settings;
use crate::settings::{AccountDetail, Page, Ready};
use crate::shell::{Shell, Writing};
use crate::text;
use crate::writing;
use vstd::prelude::*;
use vstd::string::*;

verus! {

proof fn lemma_said(a: Seq<char>, needle: Seq<char>, b: Seq<char>)
    ensures
        text::occurs(needle, a + needle + b),
{
    let all = a + needle + b;
    let at = a.len() as int;
    assert(all.subrange(at, at + needle.len()) == needle);
}

proof fn lemma_last(a: Seq<char>, needle: Seq<char>)
    ensures
        text::occurs(needle, a + needle),
{
    lemma_said(a, needle, Seq::empty());
    assert(a + needle + Seq::<char>::empty() == a + needle);
}

proof fn lemma_lines(lines: Seq<String>)
    ensures
        text::texts(lines).len() == lines.len(),
        forall|i: int| 0 <= i < lines.len() ==> (#[trigger] lines[i])@ == text::texts(lines)[i],
{
}

// ---------------------------------------------------------------------------------------------
// The interface
// ---------------------------------------------------------------------------------------------

/// A task is named by its kind and its state; an account by its address, or else by its name; a
/// proposal by how often they were written to and wrote.
pub proof fn a_label_names_what_it_is_on(
    job: &Job,
    task: String,
    it: &Account,
    name: String,
    suggestion: &Suggestion,
    hint: String,
)
    requires
        call_ensures(panes::job_label, (job,), task),
        call_ensures(panes::account_label, (it,), name),
        call_ensures(panes::suggestion_hint, (suggestion,), hint),
    ensures
        text::starts(task@, job.kind@),
        text::occurs(job.state@, task@),
        it.address matches Some(address) ==> name@ == address@,
        it.address is None ==> name@ == it.name@,
        text::starts(hint@, text::dec(suggestion.seen_to as nat) + " envoyé(s)"@),
        text::occurs(text::dec(suggestion.seen_from as nat) + " reçu(s)"@, hint@),
{
    assert(task@.take(job.kind@.len() as int) == job.kind@);
    lemma_last(job.kind@ + " — "@, job.state@);
    reveal_strlit(" envoyé(s), ");
    reveal_strlit(" envoyé(s)");
    let to = text::dec(suggestion.seen_to as nat);
    let lead = to + " envoyé(s)"@;
    assert(hint@.take(lead.len() as int) =~= lead);
    let from = text::dec(suggestion.seen_from as nat) + " reçu(s)"@;
    assert(hint@ == (to + " envoyé(s), "@) + from);
    lemma_last(to + " envoyé(s), "@, from);
}

/// An account that cannot send is told why it cannot be chosen, with its own number, and one that can
/// is told nothing; a reply is titled as one.
pub proof fn an_account_that_cannot_send_is_told_why(
    it: &Account,
    why: Option<String>,
    draft: &Compose,
    title: &'static str,
)
    requires
        call_ensures(panes::unsendable, (it,), why),
        call_ensures(panes::compose_title, (draft,), title),
    ensures
        why is None <==> it.can_send,
        why matches Some(words) ==> text::occurs(text::signed_dec(it.id as int), words@),
        draft.in_reply_to is Some <==> title@ == "Répondre"@,
{
    lemma_last(
        "Pas de serveur d'envoi. Pour en poser un :\nmail account submission --account "@,
        text::signed_dec(it.id as int),
    );
    reveal_strlit("Répondre");
    reveal_strlit("Nouveau message");
    assert("Répondre"@.len() == 8);
    assert("Nouveau message"@.len() == 15);
}

/// A message can be sent where it names somebody and none is on its way, and it is written from the
/// first account that can send.
pub proof fn a_message_can_be_sent_where_it_names_somebody(
    shell: &Shell,
    draft: &Compose,
    ready: bool,
    sendable: bool,
    it: &Writing,
    sender: Option<i64>,
    k: int,
)
    requires
        call_ensures(Shell::ready, (shell, draft), ready),
        call_ensures(Compose::is_sendable, (draft,), sendable),
        call_ensures(Writing::default_sender, (it,), sender),
        0 <= k < it.accounts@.len(),
        it.accounts@[k].can_send && it.accounts@[k].enabled,
        forall|j: int|
            0 <= j < k ==> !((#[trigger] it.accounts@[j]).can_send && it.accounts@[j].enabled),
    ensures
        sendable == composing::names_somebody(*draft),
        ready == (sendable && !shell.writing.sending),
        sender == Some(it.accounts@[k].id),
{
    assert forall|j: int| 0 <= j < k implies !writing::sends(#[trigger] it.accounts@[j]) by {
        assert(!(it.accounts@[j].can_send && it.accounts@[j].enabled));
    }
    assert(writing::is_sender(it.accounts@, k));
    let i = choose|i: int| writing::is_sender(it.accounts@, i);
    assert(writing::is_sender(it.accounts@, i));
    if i < k {
        assert(!writing::sends(it.accounts@[i]));
    } else if k < i {
        assert(!writing::sends(it.accounts@[k]));
    }
}

/// Somebody is somebody else where their address is neither ours nor the sender's; and a forward is
/// marked where it is not yet.
pub proof fn somebody_else_is_neither_of_us(
    address: &str,
    mine: &Vec<String>,
    from: &str,
    other: bool,
    subject: &str,
    lowered: &str,
    marked: String,
)
    requires
        call_ensures(writing::other, (address, mine, from), other),
        call_ensures(writing::forwarded_subject, (subject, lowered), marked),
    ensures
        other <==> address@ != from@ && forall|i: int|
            0 <= i < mine@.len() ==> (#[trigger] mine@[i])@ != address@,
        text::starts(lowered@, "tr:"@) ==> marked@ == subject@,
        !text::starts(lowered@, "tr:"@) ==> marked@ == "Tr: "@ + subject@,
{
    let ours = text::texts(mine@);
    lemma_lines(mine@);
    if ours.contains(address@) {
        let i = choose|i: int| 0 <= i < ours.len() && ours[i] == address@;
        assert(mine@[i]@ == address@);
    }
    if exists|i: int| 0 <= i < mine@.len() && (#[trigger] mine@[i])@ == address@ {
        let i = choose|i: int| 0 <= i < mine@.len() && (#[trigger] mine@[i])@ == address@;
        assert(ours[i] == address@);
    }
}

/// The window of a source opens on what was asked for, and closing it closes nothing else; the
/// settings open on a page that knows where the service is, and close again.
pub proof fn a_window_opens_on_what_was_asked_for(
    opened: &mut Shell,
    of: SourceOf,
    title: String,
    a: &mut Vec<Request>,
    closed: &mut Shell,
    page: &mut Shell,
    remote: bool,
    b: &mut Vec<Request>,
)
    requires
        call_ensures(Shell::open_source, (opened, of, title, a), ()),
        call_ensures(Shell::close_source, (closed,), ()),
        call_ensures(Shell::toggle_settings, (page, remote, b), ()),
    ensures
        final(opened).panels.source matches Some(view) && view.of == of && view.title@ == title@
            && view.found is None && view.error is None,
        final(a)@ == old(a)@.push(Request::Source { of }),
        final(opened).reader == old(opened).reader,
        final(closed).panels.source is None,
        final(closed).reader == old(closed).reader,
        final(closed).panels.outbox == old(closed).panels.outbox,
        final(closed).panels.settings == old(closed).panels.settings,
        old(page).panels.settings is Some <==> final(page).panels.settings is None,
        final(page).panels.settings matches Some(it) ==> it.remote == remote && final(b)@
            == old(b)@.push(Request::AccountsDetail),
        final(page).writing == old(page).writing,
{
}

/// A form can be saved where what it cannot do without is filled in; the host that is offered is that
/// of the account that the form is for.
pub proof fn a_form_can_be_saved_where_it_is_filled_in(
    page: &Page,
    ready: Ready,
    offered: Option<String>,
    k: int,
    domain: Seq<char>,
    port: Seq<char>,
)
    requires
        call_ensures(Page::ready, (page,), ready),
        call_ensures(Page::offered_submission, (page,), offered),
    ensures
        ready.declaration <==> (page.declaring matches Some(form) && text::trimmed(form.host@).len()
            > 0 && text::trimmed(form.username@).len() > 0),
        ready.submission <==> (page.submitting matches Some(form) && text::trimmed(form.host@).len()
            > 0),
        ready.consent <==> (page.consenting matches Some(form) && text::trimmed(
            form.client_id@,
        ).len() > 0),
        page.submitting is None ==> offered is None,
        page.submitting matches Some(form) ==> 0 <= k < page.accounts@.len() && page.accounts@[k].id
            == form.account && (forall|j: int|
            0 <= j < k ==> (#[trigger] page.accounts@[j]).id != form.account)
            && page.accounts@[k].server@ == "imap."@ + domain + seq![':'] + port
            && !domain.contains(':') ==> text::opt_text(offered) == Some("smtp."@ + domain),
{
    match page.submitting {
        Some(form) => {
            if 0 <= k < page.accounts@.len() && page.accounts@[k].id == form.account && (forall|
                j: int,
            |
                0 <= j < k ==> (#[trigger] page.accounts@[j]).id != form.account)
                && page.accounts@[k].server@ == "imap."@ + domain + seq![':'] + port
                && !domain.contains(':') {
                lemma_rank(page.accounts@, form.account, k);
                let host = "imap."@ + domain;
                reveal_strlit("imap.");
                assert forall|i: int| 0 <= i < host.len() implies host[i] != ':' by {
                    if i >= 5 {
                        assert(host[i] == domain[i - 5]);
                    }
                }
                modes::lemma_host(host, port);
                assert(host.take(5) == "imap."@);
                assert(host.skip(5) == domain);
            }
        },
        None => {},
    }
}

proof fn lemma_rank(accounts: Seq<AccountDetail>, id: i64, k: int)
    requires
        0 <= k < accounts.len(),
        accounts[k].id == id,
        forall|j: int| 0 <= j < k ==> (#[trigger] accounts[j]).id != id,
    ensures
        settings::detail_rank(accounts, id) == k,
    decreases k,
{
    if k > 0 {
        assert(accounts[0].id != id);
        let rest = accounts.drop_first();
        assert forall|j: int| 0 <= j < k - 1 implies (#[trigger] rest[j]).id != id by {
            assert(accounts[j + 1].id != id);
        }
        lemma_rank(rest, id, k - 1);
    }
}

// ---------------------------------------------------------------------------------------------
// The commands
// ---------------------------------------------------------------------------------------------

/// What is said of a message or an account on the command line names it by its number.
pub proof fn a_sentence_names_its_number(
    id: i64,
    size: &str,
    why: &str,
    queued: String,
    stopped: String,
    sender: String,
    unsigned: String,
    vanished: String,
    cleared: String,
)
    requires
        call_ensures(send::queued, (id, size), queued),
        call_ensures(send::not_delivered, (id, why), stopped),
        call_ensures(send::bad_sender, (id,), sender),
        call_ensures(send::no_signature, (id,), unsigned),
        call_ensures(remote::vanished, (id,), vanished),
        call_ensures(account::cleared_line, (id,), cleared),
    ensures
        text::starts(queued@, "Message #"@ + text::signed_dec(id as int)),
        text::occurs(size@, queued@),
        stopped@ == "#"@ + text::signed_dec(id as int) + " : "@ + why@,
        text::occurs(text::signed_dec(id as int), sender@),
        text::occurs(text::signed_dec(id as int), unsigned@),
        text::occurs(text::signed_dec(id as int), vanished@),
        text::starts(cleared@, "Le compte #"@ + text::signed_dec(id as int)),
{
    let number = text::signed_dec(id as int);
    let lead = "Message #"@ + number;
    assert(queued@.take(lead.len() as int) == lead);
    lemma_said(lead + " en file ("@, size@, ")."@);
    lemma_said("l'identifiant du compte #"@, number, " n'est pas une adresse valide"@);
    lemma_said(
        "le compte #"@,
        number,
        " n'a pas de signature — la coquille en pose une, ou `accounts.set_signature` par l'API"@,
    );
    lemma_said("la tâche #"@, number, " a disparu du registre du démon"@);
    let first = "Le compte #"@ + number;
    assert(cleared@.take(first.len() as int) == first);
}

/// A body of blanks is refused and another is not; a source that was not found is named; and what is
/// in doubt is counted where nothing can be delivered.
pub proof fn what_cannot_be_done_is_said(
    body: &str,
    refusal: Option<&'static str>,
    what: &str,
    here: String,
    there: String,
    doubtful: usize,
    lines: Vec<String>,
)
    requires
        call_ensures(send::body_refusal, (body,), refusal),
        call_ensures(source::missing, (what, false), here),
        call_ensures(source::missing, (what, true), there),
        call_ensures(send::nothing_to_flush, (doubtful,), lines),
    ensures
        refusal is Some <==> text::trimmed(body@).len() == 0,
        text::starts(here@, what@) && text::starts(there@, what@),
        doubtful == 0 <==> lines@.len() == 1,
        doubtful > 0 ==> text::starts(lines@[1]@, text::dec(doubtful as nat)),
{
    lemma_lines(lines@);
    assert(here@.take(what@.len() as int) == what@);
    assert(there@.take(what@.len() as int) == what@);
    if doubtful > 0 {
        let n = text::dec(doubtful as nat);
        assert(lines@[1]@.take(n.len() as int) == n);
    }
}

/// A gesture that was refused is told with the line, its state, and its own rule.
pub proof fn a_refused_gesture_is_told_with_its_rule(
    id: i64,
    state: &str,
    decision: Decision,
    decided: String,
    retried: String,
    forgotten: String,
    cancelled: String,
)
    requires
        call_ensures(send::gesture_refused, (id, Gesture::Decide(decision), Some(state)), decided),
        call_ensures(send::gesture_refused, (id, Gesture::Retry, Some(state)), retried),
        call_ensures(send::gesture_refused, (id, Gesture::Forget, Some(state)), forgotten),
        call_ensures(send::gesture_refused, (id, Gesture::Cancel, Some(state)), cancelled),
    ensures
        text::occurs("seul un envoi incertain se tranche"@, decided@),
        text::occurs("seul un envoi échoué se renvoie"@, retried@),
        text::occurs("seuls les envois finis — envoyés ou échoués — se retirent"@, forgotten@),
        text::occurs("l'annulation ne retire que ce qui n'est pas encore parti"@, cancelled@),
        text::occurs(state@, decided@) && text::occurs(state@, retried@),
        text::starts(decided@, "le message #"@ + text::signed_dec(id as int)),
{
    let head = "le message #"@ + text::signed_dec(id as int);
    let lead = head + " est à l'état « "@ + state@ + " » : "@;
    let tail = ". `mail outbox` pour voir la file."@;
    lemma_said(lead, "seul un envoi incertain se tranche"@, tail);
    lemma_said(lead, "seul un envoi échoué se renvoie"@, tail);
    lemma_said(lead, "seuls les envois finis — envoyés ou échoués — se retirent"@, tail);
    lemma_said(lead, "l'annulation ne retire que ce qui n'est pas encore parti"@, tail);
    assert(decided@.take(head.len() as int) == head);
    let at = (head + " est à l'état « "@).len() as int;
    assert(decided@.subrange(at, at + state@.len()) == state@);
    assert(retried@.subrange(at, at + state@.len()) == state@);
}

/// An account that was declared is told as it was written: its number, its server, its encryption and
/// its mechanism; so is where it sends, and a token that was forgotten is said to stay good elsewhere.
pub proof fn an_account_is_told_as_it_was_written(
    id: i64,
    server: &Server,
    added: Vec<String>,
    reading: &str,
    sends: Vec<String>,
    password: Vec<String>,
    token: Vec<String>,
    username: &str,
    url: &str,
    consent: Vec<String>,
)
    requires
        call_ensures(account::added_lines, (id, server), added),
        call_ensures(account::submission_lines, (id, reading, server), sends),
        call_ensures(account::forgotten_lines, (id, AuthKind::Password), password),
        call_ensures(account::forgotten_lines, (id, AuthKind::OAuth2), token),
        call_ensures(account::consent_lines, (username, url), consent),
    ensures
        text::occurs(text::signed_dec(id as int), added@[0]@),
        text::occurs(server.username@, added@[0]@),
        reporting::told(
            added@,
            "  Serveur   "@ + server.host@ + ":"@ + text::dec(server.port as nat),
        ),
        text::occurs(server.host@ + ":"@ + text::dec(server.port as nat), sends@[0]@),
        server.username@ != reading@ ==> text::occurs(server.username@, sends@[1]@),
        sends@.len() == (if server.username@ == reading@ {
            3int
        } else {
            4int
        }),
        text::occurs(text::signed_dec(id as int), password@[0]@),
        token@.len() > password@.len() && token@[0]@ == password@[0]@,
        consent@.len() == 7 && consent@[4]@ == url@ && text::occurs(username@, consent@[1]@),
{
    lemma_lines(added@);
    lemma_lines(sends@);
    lemma_lines(password@);
    lemma_lines(token@);
    lemma_lines(consent@);
    let number = text::signed_dec(id as int);
    lemma_said("Compte "@ + server.username@ + " enregistré (#"@, number, ")."@);
    lemma_said("Compte "@, server.username@, " enregistré (#"@ + number + ")."@);
    assert("Compte "@ + server.username@ + (" enregistré (#"@ + number + ")."@) == added@[0]@);
    let line = "  Serveur   "@ + server.host@ + ":"@ + text::dec(server.port as nat);
    assert(added@[1]@ == line);
    assert(line.take(line.len() as int) == line);
    assert(text::starts(added@[1]@, line));
    let address = server.host@ + ":"@ + text::dec(server.port as nat);
    let lead = "Compte #"@ + number + " : envoi par smtp "@;
    let tail = " "@ + server.security.word() + " "@ + server.auth.word() + "."@;
    assert(sends@[0]@ == lead + address + tail);
    lemma_said(lead, address, tail);
    if server.username@ != reading@ {
        lemma_last("Identifiant d'envoi : "@, server.username@);
    }
    lemma_said("Secret oublié, synchronisation du compte #"@, number, " en pause."@);
    lemma_said("Ouverture du navigateur pour autoriser "@, username@, "."@);
}

/// The address book is told whole: how many are known, and everybody of the first ones on a line.
pub proof fn the_address_book_is_told_whole(count: u64, top: &Vec<Contact>, lines: Vec<String>, k: int)
    requires
        call_ensures(reports::contacts_stats, (count, top), lines),
        count > 0,
        0 <= k < top@.len(),
    ensures
        lines@.len() == top@.len() + 3,
        lines@[0]@ == "Adresses connues "@ + text::dec(count as nat),
        text::occurs(top@[k].label@, lines@[k + 3]@),
{
    lemma_lines(lines@);
    let c = top@[k];
    let line = reports::contact_text(c);
    assert(lines@[k + 3]@ == line);
    let at = line.len() - c.label@.len();
    assert(line.subrange(at, at + c.label@.len()) == c.label@);
}

} // verus!
