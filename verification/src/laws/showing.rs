//! What the screen says: everything that is there, under its own name.
use crate::body;
use crate::body::{Drawing, ImageSource, Kind};
use crate::compose::Compose;
use crate::dates;
use crate::display;
use crate::display::{Appointment, FolderLine};
use crate::dto::{
    Account, Attached, Draft, Folder, Html, Invitation, Message, MessageSource, Outgoing,
    Participant, Row,
};
use crate::laws::composing;
use crate::laws::replying;
use crate::panes;
use crate::panes::{Answers, DraftLine, OutboxView, ReaderView, TopBar};
use crate::quote;
use crate::shell::{Field, List, Reader, Shell, Writing};
use crate::text;
use crate::writing;
use vstd::prelude::*;
use vstd::string::*;

verus! {

proof fn lemma_occurs(a: Seq<char>, needle: Seq<char>, b: Seq<char>)
    ensures
        text::occurs(needle, a + needle + b),
{
    let all = a + needle + b;
    let at = a.len() as int;
    assert(all.subrange(at, at + needle.len()) == needle);
}

proof fn lemma_ends(a: Seq<char>, needle: Seq<char>)
    ensures
        text::occurs(needle, a + needle),
{
    lemma_occurs(a, needle, Seq::empty());
    assert(a + needle + Seq::<char>::empty() == a + needle);
}

proof fn lemma_begins(needle: Seq<char>, b: Seq<char>)
    ensures
        text::occurs(needle, needle + b),
        text::starts(needle + b, needle),
{
    lemma_occurs(Seq::empty(), needle, b);
    assert(Seq::<char>::empty() + needle + b == needle + b);
    assert((needle + b).take(needle.len() as int) == needle);
}

proof fn lemma_lines(lines: Seq<String>)
    ensures
        text::texts(lines).len() == lines.len(),
        forall|i: int| 0 <= i < lines.len() ==> (#[trigger] lines[i])@ == text::texts(lines)[i],
{
}

// ---------------------------------------------------------------------------------------------
// The bar
// ---------------------------------------------------------------------------------------------

/// The bar shows the state as it is: it offers to write where an account can send, says what is
/// awaited and what cannot be reached, and offers to hold back the message that can be.
pub proof fn the_bar_shows_the_state(shell: &Shell, bar: TopBar)
    requires
        call_ensures(panes::top_bar, (shell,), bar),
    ensures
        bar.can_write <==> exists|k: int|
            replying::first_able(shell.writing.accounts@, k),
        bar.clears == (shell.list.results is Some),
        bar.busy == (shell.list.searching || shell.list.loading_page || shell.reader.opening),
        text::opt_text(bar.offline) == text::opt_text(shell.notices.offline),
        text::opt_text(bar.status) == text::opt_text(shell.notices.status),
        shell.notices.status is Some ==> bar.cancel == shell.notices.cancellable,
        shell.notices.status is None ==> bar.cancel is None,
        shell.hello matches Some(hello) ==> (bar.messages matches Some(words) && text::starts(
            words@,
            text::dec(hello.messages as nat),
        )),
        shell.hello is None ==> bar.messages is None,
        shell.writing.drafts@.len() > 0 ==> text::occurs(
            text::dec(shell.writing.drafts@.len()),
            bar.drafts@,
        ),
{
    let accounts = shell.writing.accounts@;
    if bar.can_write {
        let k = choose|k: int| writing::is_sender(accounts, k);
        assert(writing::is_sender(accounts, k));
        assert forall|j: int| 0 <= j < k implies !((#[trigger] accounts[j]).can_send
            && accounts[j].enabled) by {
            assert(!writing::sends(accounts[j]));
        }
        assert(replying::first_able(accounts, k));
    }
    if exists|k: int| replying::first_able(accounts, k) {
        let k = choose|k: int| replying::first_able(accounts, k);
        assert forall|j: int| 0 <= j < k implies !writing::sends(#[trigger] accounts[j]) by {
            assert(!(accounts[j].can_send && accounts[j].enabled));
        }
        assert(writing::is_sender(accounts, k));
    }
    match shell.hello {
        Some(hello) => {
            let many = text::dec(hello.messages as nat);
            let words = bar.messages->0@;
            assert(words.take(many.len() as int) == many);
        },
        None => {},
    }
    if shell.writing.drafts@.len() > 0 {
        lemma_occurs("Brouillons ("@, text::dec(shell.writing.drafts@.len()), ")"@);
    }
}

/// The label of the queue says how many lines are in doubt, where any is, and otherwise how many
/// wait.
pub proof fn the_queue_is_counted(outbox: &Vec<Outgoing>, label: String)
    requires
        call_ensures(display::outbox_label, (outbox,), label),
    ensures
        ({
            let doubtful = outbox@.filter(|line: Outgoing| line.doubtful).len();
            let waiting = outbox@.filter(
                |line: Outgoing| line.state@ == "queued"@ || line.state@ == "sending"@,
            ).len();
            &&& doubtful > 0 ==> text::occurs(text::dec(doubtful), label@)
            &&& doubtful == 0 && waiting > 0 ==> text::occurs(text::dec(waiting), label@)
            &&& doubtful == 0 && waiting == 0 ==> label@ == "File"@
        }),
{
    let waits = |line: Outgoing| display::is_waiting(line);
    let listed = |line: Outgoing| line.state@ == "queued"@ || line.state@ == "sending"@;
    assert(waits =~= listed);
    let doubtful = display::doubtful_count(outbox@);
    let waiting = display::waiting_count(outbox@);
    lemma_ends("File ⚠ "@, text::dec(doubtful));
    lemma_occurs("File ("@, text::dec(waiting), ")"@);
}

// ---------------------------------------------------------------------------------------------
// The queue
// ---------------------------------------------------------------------------------------------

/// The lines of the queue that have not left, in order.
pub open spec fn not_left(outbox: Seq<Outgoing>) -> Seq<Outgoing> {
    outbox.filter(|line: Outgoing| line.state@ != "sent"@)
}

/// The lines of the queue that have left, in order.
pub open spec fn left(outbox: Seq<Outgoing>) -> Seq<Outgoing> {
    outbox.filter(|line: Outgoing| line.state@ == "sent"@)
}

/// The panel of the queue shows every line that has not left, in order, under its own number and
/// with its recipients: one in doubt as such, never as refused, and one that was refused with why;
/// and the last that have left, the latest first.
pub proof fn the_queue_is_shown_line_by_line(outbox: &Vec<Outgoing>, view: OutboxView)
    requires
        call_ensures(panes::outbox_view, (outbox,), view),
    ensures
        view.open@.len() == not_left(outbox@).len(),
        forall|i: int|
            0 <= i < view.open@.len() ==> {
                let line = not_left(outbox@)[i];
                let it = #[trigger] view.open@[i];
                &&& it.id == line.id
                &&& it.doubtful == line.doubtful
                &&& it.resendable == line.resendable
                &&& text::occurs(text::joined(text::texts(line.recipients@), ", "@), it.label@)
                &&& line.doubtful ==> it.error is None
                &&& !line.doubtful ==> text::opt_text(it.error) == text::opt_text(line.last_error)
            },
        view.sent@.len() <= 5,
        left(outbox@).len() <= 5 ==> view.sent@.len() == left(outbox@).len() && view.more is None,
        forall|i: int|
            0 <= i < view.sent@.len() ==> {
                let line = left(outbox@)[left(outbox@).len() - 1 - i];
                let it = #[trigger] view.sent@[i];
                &&& it.0 == line.id
                &&& text::occurs(text::joined(text::texts(line.recipients@), ", "@), it.1@)
            },
        left(outbox@).len() > 5 ==> view.sent@.len() == 5 && (view.more matches Some(words)
            && text::occurs(text::dec((left(outbox@).len() - 5) as nat), words@)),
{
    let over = |line: Outgoing| panes::is_sent(line);
    let sent = |line: Outgoing| line.state@ == "sent"@;
    assert(over =~= sent);
    let open = |line: Outgoing| !panes::is_sent(line);
    let waits = |line: Outgoing| line.state@ != "sent"@;
    assert(open =~= waits);
    assert(not_left(outbox@) == panes::open_lines(outbox@));
    assert(left(outbox@) == panes::sent_lines(outbox@));
    assert forall|i: int| 0 <= i < view.open@.len() implies {
        let line = not_left(outbox@)[i];
        let it = #[trigger] view.open@[i];
        text::occurs(text::joined(text::texts(line.recipients@), ", "@), it.label@)
    } by {
        let line = not_left(outbox@)[i];
        let to = text::joined(text::texts(line.recipients@), ", "@);
        assert(panes::is_open_line(line, view.open@[i]));
        lemma_ends("→ "@, to);
        lemma_ends(panes::state_word(line.state@) + " → "@, to);
    }
    assert forall|i: int| 0 <= i < view.sent@.len() implies {
        let line = left(outbox@)[left(outbox@).len() - 1 - i];
        let it = #[trigger] view.sent@[i];
        text::occurs(text::joined(text::texts(line.recipients@), ", "@), it.1@)
    } by {
        let line = left(outbox@)[left(outbox@).len() - 1 - i];
        lemma_ends("envoyé → "@, text::joined(text::texts(line.recipients@), ", "@));
    }
    if left(outbox@).len() > 5 {
        lemma_occurs("… et "@, text::dec((left(outbox@).len() - 5) as nat), " autres envoyés"@);
    }
}

/// The drafts are listed in order, each by its own label, with how many files it has.
pub proof fn the_drafts_are_listed(drafts: &Vec<Draft>, year: i64, lines: Vec<DraftLine>)
    requires
        call_ensures(panes::draft_lines, (drafts, year), lines),
    ensures
        lines@.len() == drafts@.len(),
        forall|i: int|
            0 <= i < lines@.len() ==> {
                let draft = drafts@[i];
                let line = #[trigger] lines@[i];
                &&& draft.label@.len() <= 70 ==> line.label@ == draft.label@
                &&& draft.label@.len() > 70 ==> line.label@.len() == 70 && line.label@.take(69)
                    == draft.label@.take(69)
                &&& line.date@ == dates::short_date_text(draft.updated_at as int, year as int)
                &&& draft.attachments@.len() == 0 <==> line.files is None
                &&& draft.attachments@.len() > 0 ==> (line.files matches Some(words)
                    && text::occurs(text::dec(draft.attachments@.len()), words@))
            },
{
    assert forall|i: int| 0 <= i < lines@.len() implies {
        let draft = drafts@[i];
        let line = #[trigger] lines@[i];
        &&& draft.label@.len() > 70 ==> line.label@.take(69) == draft.label@.take(69)
        &&& draft.attachments@.len() > 0 ==> (line.files matches Some(words) && text::occurs(
            text::dec(draft.attachments@.len()),
            words@,
        ))
    } by {
        let draft = drafts@[i];
        let line = lines@[i];
        assert(panes::drafts_line(draft, year as int, line));
        if draft.label@.len() > 70 {
            assert(line.label@.take(69) =~= draft.label@.take(69));
        }
        if draft.attachments@.len() > 0 {
            lemma_ends("📎 "@, text::dec(draft.attachments@.len()));
        }
    }
}

// ---------------------------------------------------------------------------------------------
// The folders and the list
// ---------------------------------------------------------------------------------------------

/// Every folder has its line, in order: its own number, the end of its path, and what is unread in
/// it or, where nothing is, what it holds. An account is named above the first of its folders.
pub proof fn every_folder_has_its_line(folders: &Vec<Folder>, lines: Vec<FolderLine>)
    requires
        call_ensures(display::folder_lines, (folders,), lines),
    ensures
        lines@.len() == folders@.len(),
        forall|i: int|
            0 <= i < lines@.len() ==> {
                let folder = folders@[i];
                let line = #[trigger] lines@[i];
                &&& line.id == folder.id
                &&& line.leaf@ == text::split(folder.path@, '/').last()
                &&& line.depth == text::split(folder.path@, '/').len() - 1
                &&& line.strong <==> folder.unread > 0
                &&& folder.unread > 0 ==> line.count@ == text::dec(folder.unread as nat)
                &&& folder.unread == 0 ==> line.count@ == text::dec(folder.total as nat)
                &&& i == 0 ==> text::opt_text(line.heading) == Some(folder.account@)
                &&& i > 0 && folders@[i - 1].account@ == folder.account@ ==> line.heading is None
                &&& i > 0 && folders@[i - 1].account@ != folder.account@ ==> text::opt_text(
                    line.heading,
                ) == Some(folder.account@)
            },
{
}

/// The counter of the list says how many rows are loaded, and of how many.
pub proof fn the_list_is_counted(list: &List, words: String)
    requires
        call_ensures(display::list_counter, (list,), words),
    ensures
        list.shown().len() < list.room() ==> text::starts(words@, text::dec(list.shown().len()))
            && text::occurs(text::dec(list.room() as nat), words@),
        list.shown().len() >= list.room() ==> text::starts(words@, text::dec(list.room() as nat)),
{
    let loaded = text::dec(list.shown().len());
    let total = text::dec(list.room() as nat);
    if list.shown().len() < list.room() {
        assert(words@.take(loaded.len() as int) == loaded);
        lemma_ends(loaded + " chargés sur "@, total);
    } else {
        assert(words@.take(total.len() as int) == total);
    }
}

/// A row is shown under the name of who wrote it, or under the address where there is no name.
pub proof fn a_row_names_who_wrote_it(row: &Row, words: String)
    requires
        call_ensures(display::row_sender, (row,), words),
    ensures
        row.from_name matches Some(name) ==> text::trimmed(name@).len() > 0 ==> name@.len() <= 28
            ==> words@ == name@,
        row.from_name matches Some(name) ==> text::trimmed(name@).len() > 0 ==> name@.len() > 28
            ==> words@.take(27) == name@.take(27),
        row.from_name matches Some(name) ==> text::trimmed(name@).len() == 0 ==> row.from@.len() <= 28
            ==> words@ == row.from@,
        row.from_name is None ==> row.from@.len() <= 28 ==> words@ == row.from@,
        words@.len() <= 28,
{
    match row.from_name {
        Some(name) if text::trimmed(name@).len() > 0 && name@.len() > 28 => {
            assert(words@.take(27) == name@.take(27));
        },
        _ => {},
    }
}

/// The title of the list is the path of the folder that is shown, or says that it is results.
pub proof fn the_title_is_that_of_what_is_shown(list: &List, words: String, k: int)
    requires
        call_ensures(display::list_title, (list,), words),
        list.results is None,
        0 <= k < list.folders@.len(),
        list.current == Some(list.folders@[k].id),
        forall|j: int| 0 <= j < k ==> (#[trigger] list.folders@[j]).id != list.folders@[k].id,
    ensures
        words@ == list.folders@[k].path@,
{
    let id = list.folders@[k].id;
    assert(crate::shell::is_folder(list.folders@, k, id));
    let i = choose|i: int| crate::shell::is_folder(list.folders@, i, id);
    assert(crate::shell::is_folder(list.folders@, i, id));
    if i < k {
        assert(list.folders@[i].id != id);
    } else if k < i {
        assert(list.folders@[k].id != id);
    }
}

// ---------------------------------------------------------------------------------------------
// The reader
// ---------------------------------------------------------------------------------------------

/// The reader shows the message, unless an error has to be told first; it never shows nothing while
/// there is one or the other.
pub proof fn the_reader_shows_what_there_is(reader: &Reader, view: ReaderView)
    requires
        call_ensures(panes::reader_view, (reader,), view),
    ensures
        reader.open_error matches Some(error) ==> (view matches ReaderView::Error(words) && words@
            == error@),
        reader.open_error is None && reader.message is Some ==> view is Message,
        reader.open_error is None && reader.message is None ==> view is Nothing,
{
}

/// The header of a message names who wrote it, to whom, when, where it is, and every file that it
/// carries, in order.
pub proof fn the_header_names_everything(message: &Message, lines: Vec<String>, k: int)
    requires
        call_ensures(display::header, (message,), lines),
        0 <= k < message.attachments@.len(),
    ensures
        lines@.len() > 0,
        text::occurs(message.row.from@, lines@[0]@),
        message.to@.len() > 0 ==> lines@.len() > 1 && text::occurs(
            text::joined(text::texts(message.to@), ", "@),
            lines@[1]@,
        ),
        exists|i: int|
            0 <= i < lines@.len() && (#[trigger] lines@[i])@ == dates::long_date_text(
                message.row.date as int,
            ),
        message.folders@.len() > 0 ==> exists|i: int|
            0 <= i < lines@.len() && text::occurs(
                text::joined(text::texts(message.folders@), ", "@),
                (#[trigger] lines@[i])@,
            ),
        ({
            let line = lines@[lines@.len() - message.attachments@.len() + k]@;
            let file = message.attachments@[k];
            &&& text::occurs(file.mime@, line)
            &&& text::occurs(text::dec(file.size as nat), line)
            &&& file.name matches Some(name) ==> text::occurs(name@, line)
        }),
{
    lemma_lines(lines@);
    let top = display::header_top(*message);
    let files = Seq::new(
        message.attachments@.len(),
        |i: int| display::attachment_text(message.attachments@[i]),
    );
    let all = text::texts(lines@);
    assert(all == top + files);
    let from = message.row.from@;
    assert(top[0] == display::header_sender(message.row));
    assert(text::occurs(from, top[0])) by {
        match message.row.from_name {
            Some(name) if text::trimmed(name@).len() > 0 => {
                assert(top[0] == (name@ + " <"@) + from + ">"@);
                lemma_occurs(name@ + " <"@, from, ">"@);
            },
            _ => {
                lemma_ends(Seq::empty(), from);
                assert(Seq::<char>::empty() + from == from);
            },
        }
    }
    let to = text::joined(text::texts(message.to@), ", "@);
    let at = if message.to@.len() > 0 {
        2int
    } else {
        1int
    };
    if message.to@.len() > 0 {
        assert(top[1] == "à "@ + to);
        lemma_ends("à "@, to);
    }
    assert(top[at] == dates::long_date_text(message.row.date as int));
    assert(lines@[at]@ == all[at]);
    if message.folders@.len() > 0 {
        let within = text::joined(text::texts(message.folders@), ", "@);
        assert(top[at + 1] == "dans "@ + within);
        lemma_ends("dans "@, within);
        assert(lines@[at + 1]@ == all[at + 1]);
    }
    let i = lines@.len() - message.attachments@.len() + k;
    assert(i == top.len() + k);
    assert(lines@[i]@ == all[i]);
    assert(all[i] == files[k]);
    let file = message.attachments@[k];
    let name = match file.name {
        Some(name) => name@,
        None => "sans nom"@,
    };
    let line = display::attachment_text(file);
    let size = text::dec(file.size as nat);
    assert(line == "📎 "@ + name + (" — "@ + file.mime@ + " ("@ + size + " o)"@));
    lemma_occurs("📎 "@, name, " — "@ + file.mime@ + " ("@ + size + " o)"@);
    assert(line == ("📎 "@ + name + " — "@) + file.mime@ + (" ("@ + size + " o)"@));
    lemma_occurs("📎 "@ + name + " — "@, file.mime@, " ("@ + size + " o)"@);
    assert(line == ("📎 "@ + name + " — "@ + file.mime@ + " ("@) + size + " o)"@);
    lemma_occurs("📎 "@ + name + " — "@ + file.mime@ + " ("@, size, " o)"@);
}

/// The images that were held back can be shown, where there are any and they are not shown; the
/// trackers that were taken out are counted and named by their hosts.
pub proof fn what_was_held_back_is_said(html: &Html, shown: bool, images: Option<String>, trackers: Option<String>)
    requires
        call_ensures(display::images_label, (html, shown), images),
        call_ensures(display::trackers_label, (html,), trackers),
    ensures
        images is Some <==> html.blocked_images > 0 && !shown,
        images matches Some(words) ==> text::occurs(
            text::dec(html.blocked_images as nat),
            words@,
        ),
        trackers is Some <==> html.trackers@.len() > 0,
        trackers matches Some(words) ==> text::starts(words@, text::dec(html.trackers@.len()))
            && text::occurs(
            text::joined(
                Seq::new(html.trackers@.len(), |i: int| html.trackers@[i].host@),
                ", "@,
            ),
            words@,
        ),
{
    lemma_occurs("Afficher les "@, text::dec(html.blocked_images as nat), " images"@);
    let many = text::dec(html.trackers@.len());
    let named = Seq::new(html.trackers@.len(), |i: int| html.trackers@[i].host@);
    assert(named == display::hosts(html.trackers@));
    let names = text::joined(named, ", "@);
    lemma_ends(many + " traceur(s) neutralisé(s) : "@, names);
    assert((many + " traceur(s) neutralisé(s) : "@ + names).take(many.len() as int) == many);
}

/// As many blocks of a body are drawn as are wanted and there are, and what is not drawn is said.
pub proof fn what_is_not_drawn_is_said(shown: usize, blocks: usize, drawn: (usize, Option<String>))
    requires
        call_ensures(display::body_drawn, (shown, blocks), drawn),
    ensures
        drawn.0 <= shown,
        drawn.0 <= blocks,
        drawn.0 == shown || drawn.0 == blocks,
        drawn.1 is Some <==> drawn.0 < blocks,
        drawn.1 matches Some(words) ==> text::starts(words@, text::dec(drawn.0 as nat))
            && text::occurs(text::dec(blocks as nat), words@),
{
    let a = text::dec(shown as nat);
    let b = text::dec(blocks as nat);
    if shown < blocks {
        let words = drawn.1->0@;
        assert(words.take(a.len() as int) == a);
        lemma_occurs(a + " blocs affichés sur "@, b, " —"@);
    }
}

/// What the bytes of a message lost on the way to the screen is said, each loss with its count.
pub proof fn what_the_source_lost_is_said(source: &MessageSource, notices: Vec<String>)
    requires
        call_ensures(display::source_notices, (source,), notices),
    ensures
        notices@.len() == (if source.invalid_sequences > 0 {
            1int
        } else {
            0int
        }) + (if source.escaped_controls > 0 {
            1int
        } else {
            0int
        }) + (if source.headers_truncated {
            1int
        } else {
            0int
        }),
        source.invalid_sequences > 0 ==> text::starts(
            notices@[0]@,
            text::dec(source.invalid_sequences as nat),
        ),
        source.invalid_sequences == 0 && source.escaped_controls > 0 ==> text::starts(
            notices@[0]@,
            text::dec(source.escaped_controls as nat),
        ),
        source.invalid_sequences > 0 && source.escaped_controls > 0 ==> text::starts(
            notices@[1]@,
            text::dec(source.escaped_controls as nat),
        ),
{
    lemma_lines(notices@);
    let a = text::dec(source.invalid_sequences as nat);
    let b = text::dec(source.escaped_controls as nat);
    lemma_begins(a, " séquence(s) non UTF-8, rendues par « \u{fffd} »"@);
    lemma_begins(b, " caractère(s) de contrôle rendus visibles"@);
}

/// Whether somebody is named by a text.
pub open spec fn names(words: Seq<char>, person: Participant) -> bool {
    &&& person.name matches Some(name) ==> text::occurs(name@, words)
    &&& person.address matches Some(address) ==> text::occurs(address@, words)
}

proof fn lemma_names(person: Participant)
    ensures
        names(display::person_text(person), person),
{
    let words = display::person_text(person);
    match (person.name, person.address) {
        (Some(name), Some(address)) => {
            if name@ != address@ {
                assert(words == name@ + (" <"@ + address@ + ">"@));
                lemma_begins(name@, " <"@ + address@ + ">"@);
                assert(words == (name@ + " <"@) + address@ + ">"@);
                lemma_occurs(name@ + " <"@, address@, ">"@);
            } else {
                lemma_ends(Seq::empty(), name@);
                assert(Seq::<char>::empty() + name@ == name@);
            }
        },
        (Some(name), None) => {
            lemma_ends(Seq::empty(), name@);
            assert(Seq::<char>::empty() + name@ == name@);
        },
        (None, Some(address)) => {
            lemma_ends(Seq::empty(), address@);
            assert(Seq::<char>::empty() + address@ == address@);
        },
        (None, None) => {},
    }
}

/// An appointment is drawn as its invitation says it: what, where, when and by whom, with everybody
/// who was invited in order and what each answered; one that is cancelled is drawn as such.
pub proof fn an_appointment_is_what_its_invitation_says(invitation: &Invitation, it: Appointment)
    requires
        call_ensures(display::appointment, (invitation,), it),
    ensures
        invitation.kind@ == "annulation"@ ==> it.cancelled,
        invitation.kind@ != "annulation"@ && invitation.status is None ==> !it.cancelled
            && text::occurs(invitation.kind@, it.label@),
        text::opt_text(it.summary) == text::opt_text(invitation.summary),
        text::opt_text(it.location) == text::opt_text(invitation.location),
        text::opt_text(it.recurrence) == text::opt_text(invitation.recurrence),
        invitation.start_wall matches Some(start) ==> (it.when matches Some(words) && text::starts(
            words@,
            start@,
        ) && (invitation.end_wall matches Some(end) ==> text::occurs(end@, words@))
            && text::opt_text(it.zone) == text::opt_text(invitation.zone)),
        invitation.start_wall is None ==> it.when is None && it.zone is None,
        invitation.organizer matches Some(person) ==> (it.organizer matches Some(words) && names(
            words@,
            person,
        )),
        invitation.organizer is None ==> it.organizer is None,
        invitation.attendees@.len() <= 12 ==> it.attendees@.len() == invitation.attendees@.len(),
        invitation.attendees@.len() > 12 ==> it.attendees@.len() == 12 && (it.more matches Some(
            words,
        ) && text::occurs(text::dec((invitation.attendees@.len() - 12) as nat), words@)),
        forall|i: int|
            0 <= i < it.attendees@.len() ==> {
                let person = invitation.attendees@[i];
                let line = #[trigger] it.attendees@[i];
                &&& names(line.who@, person)
                &&& text::occurs(person.answer@, line.answer@)
                &&& line.optional == !person.required
            },
        it.caveats@.len() == invitation.caveats@.len(),
        forall|i: int|
            0 <= i < it.caveats@.len() ==> text::occurs(
                invitation.caveats@[i]@,
                (#[trigger] it.caveats@[i])@,
            ),
        it.urls@.len() == invitation.urls@.len(),
        forall|i: int|
            0 <= i < it.urls@.len() && invitation.urls@[i]@.len() <= 110 ==> (#[trigger] it.urls@[i])@
                == invitation.urls@[i]@,
{
    if !it.cancelled {
        lemma_ends("📅 "@, invitation.kind@);
    }
    match invitation.start_wall {
        Some(start) => {
            let words = it.when->0@;
            match invitation.end_wall {
                Some(end) => {
                    lemma_ends(start@ + " → "@, end@);
                    assert(words == start@ + (" → "@ + end@));
                    lemma_begins(start@, " → "@ + end@);
                },
                None => {
                    assert(words.take(start@.len() as int) == start@);
                },
            }
        },
        None => {},
    }
    match invitation.organizer {
        Some(person) => lemma_names(person),
        None => {},
    }
    if invitation.attendees@.len() > 12 {
        lemma_occurs("… et "@, text::dec((invitation.attendees@.len() - 12) as nat), " autres"@);
    }
    assert forall|i: int| 0 <= i < it.attendees@.len() implies {
        let person = invitation.attendees@[i];
        let line = #[trigger] it.attendees@[i];
        &&& names(line.who@, person)
        &&& text::occurs(person.answer@, line.answer@)
        &&& line.optional == !person.required
    } by {
        let person = invitation.attendees@[i];
        assert(display::is_attendee_line(person, it.attendees@[i]));
        lemma_names(person);
        lemma_ends("— "@, person.answer@);
    }
    assert forall|i: int| 0 <= i < it.caveats@.len() implies text::occurs(
        invitation.caveats@[i]@,
        (#[trigger] it.caveats@[i])@,
    ) by {
        lemma_ends("⚠ "@, invitation.caveats@[i]@);
    }
}

/// A block is drawn as what it is, at its own depth; a title is never drawn as text, nor text as a
/// title.
pub proof fn a_block_is_drawn_as_what_it_is(kind: &Kind, drawing: Drawing)
    requires
        call_ensures(body::draw, (kind,), drawing),
    ensures
        kind is Rule <==> drawing is Rule,
        kind is Image <==> drawing is Image,
        kind is Heading <==> drawing is Title,
        kind matches Kind::Heading(level) ==> (drawing matches Drawing::Title(shown) && (1 <= *level
            <= 3 ==> shown == *level) && 1 <= shown <= 3),
        kind matches Kind::Quote(depth) ==> drawing == Drawing::Quote(*depth),
        kind matches Kind::Item { depth, ordered } ==> drawing == (Drawing::Item {
            depth: *depth,
            ordered: *ordered,
        }),
        kind is Pre || kind is Paragraph <==> drawing is Text,
{
}

/// An image that is not loaded is announced by what it shows, and one that would have to be
/// fetched is said to be remote.
pub proof fn an_image_is_announced(alt: &str, embedded: String, remote: String, blocked: String)
    requires
        call_ensures(body::image_label, (alt, Some(ImageSource::Embedded)), embedded),
        call_ensures(body::image_label, (alt, Some(ImageSource::Remote)), remote),
        call_ensures(body::image_label, (alt, None), blocked),
    ensures
        text::trimmed(alt@).len() > 0 ==> text::occurs(alt@, embedded@) && text::occurs(
            alt@,
            remote@,
        ) && text::occurs(alt@, blocked@),
        text::starts(remote@, "[image distante"@),
        text::starts(blocked@, "[image bloquée"@),
        text::starts(embedded@, "[image "@),
{
    lemma_occurs("[image : "@, alt@, "]"@);
    lemma_occurs("[image distante : "@, alt@, "]"@);
    lemma_occurs("[image bloquée : "@, alt@, "]"@);
    reveal_strlit("[image : ");
    reveal_strlit("[image distante : ");
    reveal_strlit("[image bloquée : ");
    reveal_strlit("[image embarquée]");
    reveal_strlit("[image distante, non chargée]");
    reveal_strlit("[image bloquée]");
    reveal_strlit("[image distante");
    reveal_strlit("[image bloquée");
    reveal_strlit("[image ");
    assert(remote@.take(15) =~= "[image distante"@);
    assert(blocked@.take(14) =~= "[image bloquée"@);
    assert(embedded@.take(7) =~= "[image "@);
}

// ---------------------------------------------------------------------------------------------
// The window of the message
// ---------------------------------------------------------------------------------------------

/// The account that a message is written from is named by its address, or by its name.
pub proof fn the_account_of_a_message_is_named(accounts: &Vec<Account>, id: i64, k: int, words: String)
    requires
        call_ensures(panes::current_account, (accounts, id), words),
        0 <= k < accounts@.len(),
        accounts@[k].id == id,
        forall|j: int| 0 <= j < k ==> (#[trigger] accounts@[j]).id != id,
    ensures
        accounts@[k].address matches Some(address) ==> words@ == address@,
        accounts@[k].address is None ==> words@ == accounts@[k].name@,
{
    assert(panes::is_account(accounts@, k, id));
    let i = choose|i: int| panes::is_account(accounts@, i, id);
    assert(panes::is_account(accounts@, i, id));
    if i < k {
        assert(accounts@[i].id != id);
    } else if k < i {
        assert(accounts@[k].id != id);
    }
}

/// The foot of the window says that a message will leave exactly where it can be sent: somebody is
/// named, and none is on its way.
pub proof fn the_foot_says_what_will_happen(sending: bool, draft: &Compose, words: &'static str)
    requires
        call_ensures(panes::footer, (sending, draft), words),
    ensures
        words@ == "Le message est mis en file ; il partira même fenêtre fermée."@ <==> !sending
            && composing::names_somebody(*draft),
{
    panes::the_foot_agrees_with_the_button(sending, *draft);
}

/// An answer is offered where it can be given: only where some account can send, and to everybody
/// only where there is somebody else.
pub proof fn an_answer_is_offered_where_it_can_be_given(able: bool, recipients: usize, it: Answers)
    requires
        call_ensures(panes::answers, (able, recipients), it),
    ensures
        it.reply == able,
        it.forward == able,
        it.reply_all == (able && recipients > 1),
{
}

/// Proposals hang from the field that they were asked for.
pub proof fn proposals_hang_from_their_field(writing: &Writing, field: Field, shown: bool)
    requires
        call_ensures(panes::proposes, (writing, field), shown),
    ensures
        shown ==> writing.suggesting == Some(field) && writing.suggestions@.len() > 0,
        writing.suggesting == Some(field) && writing.suggestions@.len() > 0 ==> shown,
{
}

/// An encoded file takes four characters for three bytes, and never less than the file.
pub proof fn an_encoded_file_is_a_third_longer(size: u64, r: u64)
    requires
        call_ensures(panes::encoded, (size,), r),
        size * 4 <= u64::MAX,
    ensures
        3 * r >= 4 * size,
        3 * r < 4 * size + 3,
        r >= size,
{
}

/// A file is named on its button.
pub proof fn a_file_is_named_on_its_button(file: &Attached, size: &str, words: String)
    requires
        call_ensures(panes::attached_label, (file, size), words),
    ensures
        text::starts(words@, file.filename@),
        text::occurs(size@, words@),
{
    assert(words@.take(file.filename@.len() as int) == file.filename@);
    lemma_occurs(file.filename@ + " ("@, size@, ") ×"@);
}

/// Who wrote a message is named with the address, and with the name where it says more.
pub proof fn who_wrote_is_named(message: &Message, words: String)
    requires
        call_ensures(quote::sender_label, (message,), words),
    ensures
        text::occurs(message.row.from@, words@),
        message.row.from_name matches Some(name) ==> text::trimmed(name@).len() > 0
            ==> text::occurs(name@, words@),
        message.row.from_name is None ==> words@ == message.row.from@,
{
    let from = message.row.from@;
    lemma_ends(Seq::empty(), from);
    assert(Seq::<char>::empty() + from == from);
    match message.row.from_name {
        Some(name) => {
            if text::trimmed(name@).len() > 0 && name@ != from {
                assert(words@ == (name@ + " <"@) + from + ">"@);
                lemma_occurs(name@ + " <"@, from, ">"@);
                assert(words@ == name@ + (" <"@ + from + ">"@));
                lemma_begins(name@, " <"@ + from + ">"@);
            }
        },
        None => {},
    }
}

/// A line of the queue that is in no doubt says first how it stands: whether it waits, is on its way
/// or has failed.
pub proof fn a_line_of_the_queue_says_how_it_stands(outbox: &Vec<Outgoing>, view: OutboxView, i: int)
    requires
        call_ensures(panes::outbox_view, (outbox,), view),
        0 <= i < view.open@.len(),
        !not_left(outbox@)[i].doubtful,
    ensures
        not_left(outbox@)[i].state@ == "queued"@ ==> text::starts(
            view.open@[i].label@,
            "en attente"@,
        ),
        not_left(outbox@)[i].state@ == "sending"@ ==> text::starts(
            view.open@[i].label@,
            "en cours"@,
        ),
        not_left(outbox@)[i].state@ == "failed"@ ==> text::starts(view.open@[i].label@, "échoué"@),
{
    let open = |line: Outgoing| !panes::is_sent(line);
    let waits = |line: Outgoing| line.state@ != "sent"@;
    assert(open =~= waits);
    let line = not_left(outbox@)[i];
    assert(panes::is_open_line(line, view.open@[i]));
    reveal_strlit("queued");
    reveal_strlit("sending");
    reveal_strlit("failed");
    assert("queued"@.len() == 6 && "sending"@.len() == 7 && "queued"@[0] != "failed"@[0]);
    let word = panes::state_word(line.state@);
    let rest = " → "@ + text::joined(text::texts(line.recipients@), ", "@);
    assert(view.open@[i].label@ == word + rest);
    lemma_begins(word, rest);
}

} // verus!
