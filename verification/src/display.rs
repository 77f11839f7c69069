//! What the interface writes on the screen.
use crate::dates;
use crate::dto::{
    Attachment, Folder, Hello, Html, Invitation, Message, MessageSource, Outgoing, Participant, Row, Tracker,
};
use crate::quote;
use crate::shell::List;
use crate::text;
use vstd::prelude::*;
use vstd::string::*;

verus! {

// ---------------------------------------------------------------------------------------------
// The bar at the top
// ---------------------------------------------------------------------------------------------

/// Whether a line of the queue has yet to leave.
pub open spec fn is_waiting(line: Outgoing) -> bool {
    line.state@ == "queued"@ || line.state@ == "sending"@
}

/// How many lines of the queue have yet to leave.
pub open spec fn waiting_count(outbox: Seq<Outgoing>) -> nat {
    outbox.filter(|line: Outgoing| is_waiting(line)).len()
}

/// How many lines of the queue nobody knows the end of.
pub open spec fn doubtful_count(outbox: Seq<Outgoing>) -> nat {
    outbox.filter(|line: Outgoing| line.doubtful).len()
}

/// The label of the queue: a doubt goes before the number of those that wait.
pub open spec fn outbox_label_text(outbox: Seq<Outgoing>) -> Seq<char> {
    if doubtful_count(outbox) > 0 {
        "File ⚠ "@ + text::dec(doubtful_count(outbox))
    } else if waiting_count(outbox) > 0 {
        "File ("@ + text::dec(waiting_count(outbox)) + ")"@
    } else {
        "File"@
    }
}

/// The label of the queue.
pub fn outbox_label(outbox: &Vec<Outgoing>) -> (r: String)
    ensures
        r@ == outbox_label_text(outbox@),
{
    let ghost waits = |line: Outgoing| is_waiting(line);
    let ghost doubts = |line: Outgoing| line.doubtful;
    let mut waiting: usize = 0;
    let mut doubtful: usize = 0;
    let mut i: usize = 0;
    proof {
        reveal(Seq::filter);
    }
    while i < outbox.len()
        invariant
            i <= outbox.len(),
            waits == (|line: Outgoing| is_waiting(line)),
            doubts == (|line: Outgoing| line.doubtful),
            waiting == outbox@.take(i as int).filter(waits).len(),
            doubtful == outbox@.take(i as int).filter(doubts).len(),
            waiting <= i,
            doubtful <= i,
        decreases outbox.len() - i,
    {
        proof {
            assert(outbox@.take(i + 1).drop_last() == outbox@.take(i as int));
            assert(outbox@.take(i + 1).last() == outbox@[i as int]);
            reveal(Seq::filter);
        }
        let line = &outbox[i];
        if text::same(line.state.as_str(), "queued") || text::same(line.state.as_str(), "sending") {
            waiting = waiting + 1;
        }
        if line.doubtful {
            doubtful = doubtful + 1;
        }
        i = i + 1;
    }
    assert(outbox@.take(outbox.len() as int) == outbox@);
    if doubtful > 0 {
        let mut out = "File ⚠ ".to_owned();
        out.append(text::decimal_usize(doubtful).as_str());
        out
    } else if waiting > 0 {
        let mut out = "File (".to_owned();
        out.append(text::decimal_usize(waiting).as_str());
        out.append(")");
        out
    } else {
        "File".to_owned()
    }
}

/// The label of the drafts.
pub open spec fn drafts_label_text(count: nat) -> Seq<char> {
    if count == 0 {
        "Brouillons"@
    } else {
        "Brouillons ("@ + text::dec(count) + ")"@
    }
}

/// The label of the drafts.
pub fn drafts_label(count: usize) -> (r: String)
    ensures
        r@ == drafts_label_text(count as nat),
{
    if count == 0 {
        "Brouillons".to_owned()
    } else {
        let mut out = "Brouillons (".to_owned();
        out.append(text::decimal_usize(count).as_str());
        out.append(")");
        out
    }
}

/// What the service holds.
pub open spec fn messages_label_text(hello: Hello) -> Seq<char> {
    text::dec(hello.messages as nat) + " messages"@ + if hello.search_available {
        ""@
    } else {
        " — sans index"@
    }
}

/// What the service holds.
pub fn messages_label(hello: &Hello) -> (r: String)
    ensures
        r@ == messages_label_text(*hello),
{
    let mut out = text::decimal(hello.messages);
    out.append(" messages");
    out.append(
        if hello.search_available {
            ""
        } else {
            " — sans index"
        },
    );
    out
}

// ---------------------------------------------------------------------------------------------
// The folders and the list
// ---------------------------------------------------------------------------------------------

/// A line of the list of folders.
pub struct FolderLine {
    pub id: i64,
    /// The account, where the line is the first of its folders.
    pub heading: Option<String>,
    /// How deep the folder lies.
    pub depth: usize,
    /// The last part of its path.
    pub leaf: String,
    /// Something in it is unread.
    pub strong: bool,
    /// How much is unread in it or, where nothing is, how much it holds.
    pub count: String,
}

/// Whether a folder opens the folders of its account.
pub open spec fn opens_account(folders: Seq<Folder>, i: int) -> bool {
    i == 0 || folders[i].account@ != folders[i - 1].account@
}

/// Whether a line is that of a folder.
pub open spec fn is_folder_line(folders: Seq<Folder>, i: int, line: FolderLine) -> bool {
    let folder = folders[i];
    let parts = text::split(folder.path@, '/');
    &&& line.id == folder.id
    &&& text::opt_text(line.heading) == if opens_account(folders, i) {
        Some(folder.account@)
    } else {
        None
    }
    &&& line.depth == parts.len() - 1
    &&& line.leaf@ == parts.last()
    &&& line.strong == (folder.unread > 0)
    &&& line.count@ == text::dec(
        if folder.unread > 0 {
            folder.unread as nat
        } else {
            folder.total as nat
        },
    )
}

/// The lines of the list of folders, grouped by account.
pub fn folder_lines(folders: &Vec<Folder>) -> (r: Vec<FolderLine>)
    ensures
        r@.len() == folders@.len(),
        forall|i: int| 0 <= i < r@.len() ==> is_folder_line(folders@, i, #[trigger] r@[i]),
{
    let mut out: Vec<FolderLine> = Vec::new();
    let mut i: usize = 0;
    while i < folders.len()
        invariant
            i <= folders.len(),
            out@.len() == i,
            forall|k: int| 0 <= k < i ==> is_folder_line(folders@, k, #[trigger] out@[k]),
        decreases folders.len() - i,
    {
        let folder = &folders[i];
        let parts = text::split_at(folder.path.as_str(), '/');
        assert(text::texts(parts@).len() == parts.len());
        let last: usize = parts.len() - 1;
        assert(text::texts(parts@)[last as int] == parts@[last as int]@);
        let opens = i == 0 || !text::same(folder.account.as_str(), folders[i - 1].account.as_str());
        let unread = folder.unread > 0;
        out.push(
            FolderLine {
                id: folder.id,
                heading: if opens {
                    Some(folder.account.clone())
                } else {
                    None
                },
                depth: last,
                leaf: parts[last].clone(),
                strong: unread,
                count: text::decimal(
                    if unread {
                        folder.unread
                    } else {
                        folder.total
                    },
                ),
            },
        );
        i = i + 1;
    }
    out
}

/// The title of the list.
pub fn list_title(list: &List) -> (r: String)
    ensures
        r@ == if list.results is Some {
            "Résultats"@
        } else {
            match list.opened() {
                Some(folder) => folder.path@,
                None => "—"@,
            }
        },
{
    if list.results.is_some() {
        "Résultats".to_owned()
    } else {
        match list.folder() {
            Some(folder) => folder.path.clone(),
            None => "—".to_owned(),
        }
    }
}

/// How much of the list is loaded, in plain words.
pub fn list_counter(list: &List) -> (r: String)
    ensures
        r@ == if list.shown().len() < list.room() {
            text::dec(list.shown().len()) + " chargés sur "@ + text::dec(list.room() as nat)
        } else {
            text::dec(list.room() as nat) + " messages"@
        },
{
    let total: usize = list.total();
    let loaded: usize = list.visible().len();
    if loaded < total {
        let mut out = text::decimal_usize(loaded);
        out.append(" chargés sur ");
        out.append(text::decimal_usize(total).as_str());
        out
    } else {
        let mut out = text::decimal_usize(total);
        out.append(" messages");
        out
    }
}

/// Who a row is from: the name, where it says something, or the address.
pub open spec fn row_name(row: Row) -> Seq<char> {
    match row.from_name {
        Some(name) if text::trimmed(name@).len() > 0 => name@,
        _ => row.from@,
    }
}

/// Who a row is from, cut to its column.
pub fn row_sender(row: &Row) -> (r: String)
    ensures
        r@ == quote::elided(row_name(*row), 28),
{
    match &row.from_name {
        Some(name) => {
            if text::trim(name.as_str()).as_str().unicode_len() > 0 {
                return quote::elide(name.as_str(), 28);
            }
        },
        None => {},
    }
    quote::elide(row.from.as_str(), 28)
}

/// The heading of a thread. A thread of one message is the message, and has none.
pub fn thread_heading(count: usize) -> (r: Option<String>)
    ensures
        text::opt_text(r) == if count < 2 {
            None
        } else {
            Some("Fil — "@ + text::dec(count as nat) + " messages"@)
        },
{
    if count < 2 {
        return None;
    }
    let mut out = "Fil — ".to_owned();
    out.append(text::decimal_usize(count).as_str());
    out.append(" messages");
    Some(out)
}

/// A line of a thread.
pub fn thread_label(row: &Row, current_year: i64) -> (r: String)
    ensures
        r@ == dates::short_date_text(row.date as int, current_year as int) + "  "@ + quote::elided(
            row.subject@,
            44,
        ),
{
    let mut out = dates::short_date(row.date, current_year);
    out.append("  ");
    out.append(quote::elide(row.subject.as_str(), 44).as_str());
    out
}

// ---------------------------------------------------------------------------------------------
// The reader
// ---------------------------------------------------------------------------------------------

/// Who a message is from: the name and the address, where the name says something.
pub open spec fn header_sender(row: Row) -> Seq<char> {
    match row.from_name {
        Some(name) if text::trimmed(name@).len() > 0 => name@ + " <"@ + row.from@ + ">"@,
        _ => row.from@,
    }
}

/// The line for a file that a message carries: it is described, never opened.
pub open spec fn attachment_text(file: Attachment) -> Seq<char> {
    "📎 "@ + match file.name {
        Some(name) => name@,
        None => "sans nom"@,
    } + " — "@ + file.mime@ + " ("@ + text::dec(file.size as nat) + " o)"@
}

/// The lines under the subject of a message, up to its files.
pub open spec fn header_top(message: Message) -> Seq<Seq<char>> {
    seq![header_sender(message.row)] + (if message.to@.len() == 0 {
        seq![]
    } else {
        seq!["à "@ + text::joined(text::texts(message.to@), ", "@)]
    }) + seq![dates::long_date_text(message.row.date as int)] + (if message.folders@.len() == 0 {
        seq![]
    } else {
        seq!["dans "@ + text::joined(text::texts(message.folders@), ", "@)]
    })
}

/// The lines under the subject of a message.
pub open spec fn header_text(message: Message) -> Seq<Seq<char>> {
    header_top(message) + Seq::new(
        message.attachments@.len(),
        |i: int| attachment_text(message.attachments@[i]),
    )
}

fn sender_line(row: &Row) -> (r: String)
    ensures
        r@ == header_sender(*row),
{
    match &row.from_name {
        Some(name) => {
            if text::trim(name.as_str()).as_str().unicode_len() > 0 {
                let mut out = name.clone();
                out.append(" <");
                out.append(row.from.as_str());
                out.append(">");
                return out;
            }
        },
        None => {},
    }
    row.from.clone()
}

fn attachment_line(file: &Attachment) -> (r: String)
    ensures
        r@ == attachment_text(*file),
{
    let mut out = "📎 ".to_owned();
    match &file.name {
        Some(name) => {
            out.append(name.as_str());
        },
        None => {
            out.append("sans nom");
        },
    }
    out.append(" — ");
    out.append(file.mime.as_str());
    out.append(" (");
    out.append(text::decimal(file.size).as_str());
    out.append(" o)");
    out
}

/// The lines under the subject of a message.
pub fn header(message: &Message) -> (r: Vec<String>)
    ensures
        text::texts(r@) == header_text(*message),
{
    let mut out: Vec<String> = Vec::new();
    out.push(sender_line(&message.row));
    if message.to.len() > 0 {
        let mut line = "à ".to_owned();
        line.append(text::join(&message.to, ", ").as_str());
        out.push(line);
    }
    out.push(dates::long_date(message.row.date));
    if message.folders.len() > 0 {
        let mut line = "dans ".to_owned();
        line.append(text::join(&message.folders, ", ").as_str());
        out.push(line);
    }
    let ghost top = out@;
    assert(text::texts(top) == header_top(*message));
    let mut i: usize = 0;
    while i < message.attachments.len()
        invariant
            i <= message.attachments.len(),
            out@.len() == top.len() + i,
            out@.take(top.len() as int) == top,
            forall|k: int|
                0 <= k < i ==> (#[trigger] out@[top.len() + k])@ == attachment_text(
                    message.attachments@[k],
                ),
        decreases message.attachments.len() - i,
    {
        let ghost before = out@;
        out.push(attachment_line(&message.attachments[i]));
        assert(out@.take(top.len() as int) == before.take(top.len() as int));
        i = i + 1;
    }
    proof {
        let files = Seq::new(
            message.attachments@.len(),
            |i: int| attachment_text(message.attachments@[i]),
        );
        assert(text::texts(out@) =~= header_top(*message) + files) by {
            assert forall|k: int| 0 <= k < out@.len() implies text::texts(out@)[k] == (header_top(
                *message,
            ) + files)[k] by {
                if k < top.len() {
                    assert(out@.take(top.len() as int)[k] == top[k]);
                    assert(text::texts(top)[k] == top[k]@);
                } else {
                    assert(out@[top.len() + (k - top.len())]@ == attachment_text(
                        message.attachments@[k - top.len()],
                    ));
                }
            }
        }
    }
    out
}

/// What the button that shows the images says, where there are images to show.
pub fn images_label(html: &Html, images_shown: bool) -> (r: Option<String>)
    ensures
        text::opt_text(r) == if html.blocked_images > 0 && !images_shown {
            Some("Afficher les "@ + text::dec(html.blocked_images as nat) + " images"@)
        } else {
            None
        },
{
    if html.blocked_images > 0 && !images_shown {
        let mut out = "Afficher les ".to_owned();
        out.append(text::decimal_usize(html.blocked_images).as_str());
        out.append(" images");
        Some(out)
    } else {
        None
    }
}

/// The hosts of the trackers, in order.
pub open spec fn hosts(trackers: Seq<Tracker>) -> Seq<Seq<char>> {
    Seq::new(trackers.len(), |i: int| trackers[i].host@)
}

/// What is said of the trackers that were taken out: the hosts, never the addresses.
pub fn trackers_label(html: &Html) -> (r: Option<String>)
    ensures
        text::opt_text(r) == if html.trackers@.len() == 0 {
            None
        } else {
            Some(
                text::dec(html.trackers@.len()) + " traceur(s) neutralisé(s) : "@ + text::joined(
                    hosts(html.trackers@),
                    ", "@,
                ),
            )
        },
{
    if html.trackers.len() == 0 {
        return None;
    }
    let mut names: Vec<String> = Vec::new();
    let mut i: usize = 0;
    while i < html.trackers.len()
        invariant
            i <= html.trackers.len(),
            names@.len() == i,
            forall|k: int| 0 <= k < i ==> (#[trigger] names@[k])@ == html.trackers@[k].host@,
        decreases html.trackers.len() - i,
    {
        names.push(html.trackers[i].host.clone());
        i = i + 1;
    }
    assert(text::texts(names@) =~= hosts(html.trackers@));
    let mut out = text::decimal_usize(html.trackers.len());
    out.append(" traceur(s) neutralisé(s) : ");
    out.append(text::join(&names, ", ").as_str());
    Some(out)
}

/// How many blocks of a body are drawn, and what is said where it is not all of them.
pub fn body_drawn(shown: usize, blocks: usize) -> (r: (usize, Option<String>))
    ensures
        r.0 == if shown <= blocks {
            shown
        } else {
            blocks
        },
        text::opt_text(r.1) == if shown < blocks {
            Some(
                text::dec(shown as nat) + " blocs affichés sur "@ + text::dec(blocks as nat) + " —"@,
            )
        } else {
            None
        },
{
    if shown < blocks {
        let mut out = text::decimal_usize(shown);
        out.append(" blocs affichés sur ");
        out.append(text::decimal_usize(blocks).as_str());
        out.append(" —");
        (shown, Some(out))
    } else {
        (blocks, None)
    }
}

/// What is said of the bytes of a message, before they are shown.
pub open spec fn source_reserves(source: MessageSource) -> Seq<Seq<char>> {
    (if source.invalid_sequences > 0 {
        seq![
            text::dec(source.invalid_sequences as nat)
                + " séquence(s) non UTF-8, rendues par « \u{fffd} »"@,
        ]
    } else {
        seq![]
    }) + (if source.escaped_controls > 0 {
        seq![
            text::dec(source.escaped_controls as nat)
                + " caractère(s) de contrôle rendus visibles"@,
        ]
    } else {
        seq![]
    }) + (if source.headers_truncated {
        seq!["en-têtes tronqués"@]
    } else {
        seq![]
    })
}

/// What is said of the bytes of a message, before they are shown.
pub fn source_notices(source: &MessageSource) -> (r: Vec<String>)
    ensures
        text::texts(r@) == source_reserves(*source),
{
    let mut out: Vec<String> = Vec::new();
    if source.invalid_sequences > 0 {
        let mut line = text::decimal_usize(source.invalid_sequences);
        line.append(" séquence(s) non UTF-8, rendues par « \u{fffd} »");
        out.push(line);
    }
    if source.escaped_controls > 0 {
        let mut line = text::decimal_usize(source.escaped_controls);
        line.append(" caractère(s) de contrôle rendus visibles");
        out.push(line);
    }
    if source.headers_truncated {
        out.push("en-têtes tronqués".to_owned());
    }
    assert(text::texts(out@) =~= source_reserves(*source));
    out
}

/// What is said below a body that was cut, where `size` says how long the message is.
pub fn source_cut(source: &MessageSource, size: &str) -> (r: Option<String>)
    ensures
        text::opt_text(r) == if source.body_truncated {
            Some("corps tronqué — le message fait "@ + size@)
        } else {
            None
        },
{
    if source.body_truncated {
        let mut out = "corps tronqué — le message fait ".to_owned();
        out.append(size);
        Some(out)
    } else {
        None
    }
}

// ---------------------------------------------------------------------------------------------
// The appointment
// ---------------------------------------------------------------------------------------------

/// How many attendees an appointment shows.
pub const ATTENDEES_SHOWN: usize = 12;

/// Whether an appointment does not take place.
pub open spec fn is_cancelled(invitation: Invitation) -> bool {
    invitation.kind@ == "annulation"@ || (invitation.status matches Some(status) && text::same_but_case(
        status@,
        "CANCELLED"@,
    ))
}

/// How somebody is shown: the name and the address, unless the one is the other.
pub open spec fn person_text(person: Participant) -> Seq<char> {
    match (person.name, person.address) {
        (Some(name), Some(address)) => if name@ != address@ {
            name@ + " <"@ + address@ + ">"@
        } else {
            name@
        },
        (Some(name), None) => name@,
        (None, Some(address)) => address@,
        (None, None) => "(inconnu)"@,
    }
}

/// How somebody is shown.
pub fn who(person: &Participant) -> (r: String)
    ensures
        r@ == person_text(*person),
{
    match (&person.name, &person.address) {
        (Some(name), Some(address)) => {
            if text::same(name.as_str(), address.as_str()) {
                name.clone()
            } else {
                let mut out = name.clone();
                out.append(" <");
                out.append(address.as_str());
                out.append(">");
                out
            }
        },
        (Some(name), None) => name.clone(),
        (None, Some(address)) => address.clone(),
        (None, None) => "(inconnu)".to_owned(),
    }
}

/// A line for somebody who was invited.
pub struct AttendeeLine {
    pub who: String,
    pub answer: String,
    pub optional: bool,
}

/// Whether a line is that of somebody who was invited.
pub open spec fn is_attendee_line(person: Participant, line: AttendeeLine) -> bool {
    &&& line.who@ == person_text(person)
    &&& line.answer@ == "— "@ + person.answer@
    &&& line.optional == !person.required
}

/// What is drawn of an appointment. What the invitation does not say is not drawn.
pub struct Appointment {
    pub cancelled: bool,
    pub label: String,
    pub summary: Option<String>,
    /// The hours, as the invitation writes them.
    pub when: Option<String>,
    /// Their zone, where there are hours.
    pub zone: Option<String>,
    pub location: Option<String>,
    pub organizer: Option<String>,
    pub attendees: Vec<AttendeeLine>,
    /// How many more there are.
    pub more: Option<String>,
    /// The rule of repetition, as the invitation writes it.
    pub recurrence: Option<String>,
    pub urls: Vec<String>,
    pub caveats: Vec<String>,
    pub extra: Option<String>,
}

/// How many attendees are shown.
pub open spec fn attendees_shown(count: nat) -> nat {
    if count <= ATTENDEES_SHOWN {
        count
    } else {
        ATTENDEES_SHOWN as nat
    }
}

/// The hours of an appointment, where it has a beginning.
pub open spec fn hours(invitation: Invitation) -> Option<Seq<char>> {
    match invitation.start_wall {
        Some(start) => Some(
            match invitation.end_wall {
                Some(end) => start@ + " → "@ + end@,
                None => start@,
            },
        ),
        None => None,
    }
}

/// Whether a drawing is that of an invitation.
pub open spec fn draws(invitation: Invitation, it: Appointment) -> bool {
    let count = invitation.attendees@.len();
    let shown = attendees_shown(count);
    &&& it.cancelled == is_cancelled(invitation)
    &&& it.label@ == if is_cancelled(invitation) {
        "✖ Annulé"@
    } else {
        "📅 "@ + invitation.kind@
    }
    &&& it.summary == invitation.summary
    &&& text::opt_text(it.when) == hours(invitation)
    &&& it.zone == if invitation.start_wall is Some {
        invitation.zone
    } else {
        None
    }
    &&& it.location == invitation.location
    &&& text::opt_text(it.organizer) == match invitation.organizer {
        Some(person) => Some(person_text(person)),
        None => None,
    }
    &&& it.attendees@.len() == shown
    &&& forall|i: int|
        0 <= i < shown ==> is_attendee_line(invitation.attendees@[i], #[trigger] it.attendees@[i])
    &&& text::opt_text(it.more) == if count > shown {
        Some("… et "@ + text::dec((count - shown) as nat) + " autres"@)
    } else {
        None
    }
    &&& it.recurrence == invitation.recurrence
    &&& it.urls@.len() == invitation.urls@.len()
    &&& forall|i: int|
        0 <= i < it.urls@.len() ==> (#[trigger] it.urls@[i])@ == quote::elided(
            invitation.urls@[i]@,
            110,
        )
    &&& it.caveats@.len() == invitation.caveats@.len()
    &&& forall|i: int|
        0 <= i < it.caveats@.len() ==> (#[trigger] it.caveats@[i])@ == "⚠ "@
            + invitation.caveats@[i]@
    &&& text::opt_text(it.extra) == if invitation.extra_events > 0 {
        Some(
            "Cette pièce porte "@ + text::dec(invitation.extra_events as nat)
                + " rendez-vous de plus, non affichés."@,
        )
    } else {
        None
    }
}

/// An appointment never shows an hour that its invitation does not write, and never one without
/// its zone where the invitation gives one; and it says how many it does not show.
pub proof fn an_appointment_says_what_it_leaves_out(invitation: Invitation, it: Appointment)
    requires
        draws(invitation, it),
    ensures
        it.when is Some <==> invitation.start_wall is Some,
        it.when is Some ==> it.zone == invitation.zone,
        it.attendees@.len() <= ATTENDEES_SHOWN,
        it.more is Some <==> it.attendees@.len() < invitation.attendees@.len(),
        it.extra is Some <==> invitation.extra_events > 0,
        it.caveats@.len() == invitation.caveats@.len(),
{
}

fn attendee_lines(people: &Vec<Participant>) -> (r: Vec<AttendeeLine>)
    ensures
        r@.len() == attendees_shown(people@.len()),
        forall|i: int| 0 <= i < r@.len() ==> is_attendee_line(people@[i], #[trigger] r@[i]),
{
    let shown: usize = if people.len() <= ATTENDEES_SHOWN {
        people.len()
    } else {
        ATTENDEES_SHOWN
    };
    let mut out: Vec<AttendeeLine> = Vec::new();
    let mut i: usize = 0;
    while i < shown
        invariant
            i <= shown <= people.len(),
            out@.len() == i,
            forall|k: int| 0 <= k < i ==> is_attendee_line(people@[k], #[trigger] out@[k]),
        decreases shown - i,
    {
        let person = &people[i];
        let mut answer = "— ".to_owned();
        answer.append(person.answer.as_str());
        out.push(AttendeeLine { who: who(person), answer, optional: !person.required });
        i = i + 1;
    }
    out
}

fn elided_urls(urls: &Vec<String>) -> (r: Vec<String>)
    ensures
        r@.len() == urls@.len(),
        forall|i: int|
            0 <= i < r@.len() ==> (#[trigger] r@[i])@ == quote::elided(urls@[i]@, 110),
{
    let mut out: Vec<String> = Vec::new();
    let mut i: usize = 0;
    while i < urls.len()
        invariant
            i <= urls.len(),
            out@.len() == i,
            forall|k: int| 0 <= k < i ==> (#[trigger] out@[k])@ == quote::elided(urls@[k]@, 110),
        decreases urls.len() - i,
    {
        out.push(quote::elide(urls[i].as_str(), 110));
        i = i + 1;
    }
    out
}

fn warnings(caveats: &Vec<String>) -> (r: Vec<String>)
    ensures
        r@.len() == caveats@.len(),
        forall|i: int| 0 <= i < r@.len() ==> (#[trigger] r@[i])@ == "⚠ "@ + caveats@[i]@,
{
    let mut out: Vec<String> = Vec::new();
    let mut i: usize = 0;
    while i < caveats.len()
        invariant
            i <= caveats.len(),
            out@.len() == i,
            forall|k: int| 0 <= k < i ==> (#[trigger] out@[k])@ == "⚠ "@ + caveats@[k]@,
        decreases caveats.len() - i,
    {
        let mut line = "⚠ ".to_owned();
        line.append(caveats[i].as_str());
        out.push(line);
        i = i + 1;
    }
    out
}

/// What is drawn of an invitation.
pub fn appointment(invitation: &Invitation) -> (r: Appointment)
    ensures
        draws(*invitation, r),
{
    let cancelled = text::same(invitation.kind.as_str(), "annulation") || match &invitation.status {
        Some(status) => text::same_letters(status.as_str(), "CANCELLED"),
        None => false,
    };
    let label = if cancelled {
        "✖ Annulé".to_owned()
    } else {
        let mut out = "📅 ".to_owned();
        out.append(invitation.kind.as_str());
        out
    };
    let when = match &invitation.start_wall {
        Some(start) => {
            let mut out = start.clone();
            match &invitation.end_wall {
                Some(end) => {
                    out.append(" → ");
                    out.append(end.as_str());
                },
                None => {},
            }
            Some(out)
        },
        None => None,
    };
    let zone = if invitation.start_wall.is_some() {
        text::copy_opt(&invitation.zone)
    } else {
        None
    };
    let attendees = attendee_lines(&invitation.attendees);
    let more = if invitation.attendees.len() > attendees.len() {
        let left: usize = invitation.attendees.len() - attendees.len();
        let mut out = "… et ".to_owned();
        out.append(text::decimal_usize(left).as_str());
        out.append(" autres");
        Some(out)
    } else {
        None
    };
    let extra = if invitation.extra_events > 0 {
        let mut out = "Cette pièce porte ".to_owned();
        out.append(text::decimal_usize(invitation.extra_events).as_str());
        out.append(" rendez-vous de plus, non affichés.");
        Some(out)
    } else {
        None
    };
    Appointment {
        cancelled,
        label,
        summary: text::copy_opt(&invitation.summary),
        when,
        zone,
        location: text::copy_opt(&invitation.location),
        organizer: match &invitation.organizer {
            Some(person) => Some(who(person)),
            None => None,
        },
        attendees,
        more,
        recurrence: text::copy_opt(&invitation.recurrence),
        urls: elided_urls(&invitation.urls),
        caveats: warnings(&invitation.caveats),
        extra,
    }
}

} // verus!
