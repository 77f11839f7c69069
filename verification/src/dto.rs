//! What the mail service sends: the values that the clients read.
//!
//! Each type holds, as plain values, what a client shows or decides on. Nothing here is computed.
use crate::text;
use vstd::prelude::*;

verus! {

/// A line of a list of messages.
#[derive(Debug)]
pub struct Row {
    pub id: i64,
    /// Unix seconds; zero or less where the message has no usable date.
    pub date: i64,
    pub from: String,
    pub from_name: Option<String>,
    pub subject: String,
    pub unread: bool,
    pub flagged: bool,
    pub has_attachments: bool,
}

/// A folder and its counters.
#[derive(Debug)]
pub struct Folder {
    pub id: i64,
    pub account: String,
    pub path: String,
    /// What the folder is for; `inbox` names the one that opens first.
    pub kind: String,
    pub total: u64,
    pub unread: u64,
}

/// A page of rows, and the opaque cursor of the next one.
#[derive(Debug)]
pub struct Page {
    pub rows: Vec<Row>,
    pub next: Option<String>,
}

/// What the service says of itself.
#[derive(Debug)]
pub struct Hello {
    pub version: String,
    pub protocol: u32,
    pub messages: u64,
    pub search_available: bool,
    pub revision: String,
}

/// A file that a received message carries.
#[derive(Debug)]
pub struct Attachment {
    pub name: Option<String>,
    pub mime: String,
    pub size: u64,
}

/// A resource that would have told its host that the message was read.
#[derive(Debug)]
pub struct Tracker {
    pub host: String,
}

/// What was taken out of an HTML body.
#[derive(Debug)]
pub struct Html {
    pub blocked_images: usize,
    pub trackers: Vec<Tracker>,
}

/// Somebody that an invitation names.
#[derive(Debug)]
pub struct Participant {
    pub name: Option<String>,
    pub address: Option<String>,
    pub answer: String,
    pub required: bool,
}

/// An appointment that a message carries.
#[derive(Debug)]
pub struct Invitation {
    pub kind: String,
    pub status: Option<String>,
    pub summary: Option<String>,
    pub start_wall: Option<String>,
    pub end_wall: Option<String>,
    pub zone: Option<String>,
    pub location: Option<String>,
    pub organizer: Option<Participant>,
    pub attendees: Vec<Participant>,
    pub recurrence: Option<String>,
    pub urls: Vec<String>,
    pub caveats: Vec<String>,
    pub extra_events: usize,
}

/// A message, opened.
#[derive(Debug)]
pub struct Message {
    pub row: Row,
    pub message_id: Option<String>,
    pub references: Vec<String>,
    pub to: Vec<String>,
    pub body: String,
    pub body_truncated: bool,
    pub html: Option<Html>,
    pub attachments: Vec<Attachment>,
    /// The paths of the folders that hold the message.
    pub folders: Vec<String>,
    pub thread: Option<i64>,
    pub invitation: Option<Invitation>,
}

/// What a search found.
#[derive(Debug)]
pub struct Results {
    pub rows: Vec<Row>,
    pub count: usize,
    pub truncated: bool,
    pub search_available: bool,
}

/// A profile that the service may import.
#[derive(Debug)]
pub struct Source {
    pub id: usize,
    pub path: String,
}

/// A background task.
#[derive(Debug)]
pub struct Job {
    pub id: i64,
    pub kind: String,
    pub state: String,
    pub done: u64,
    pub total: u64,
    pub message: Option<String>,
}

/// An account, as the composition window sees it.
#[derive(Debug)]
pub struct Account {
    pub id: i64,
    pub name: String,
    pub address: Option<String>,
    pub can_send: bool,
    pub enabled: bool,
}

/// A line of the sending queue.
#[derive(Debug)]
pub struct Outgoing {
    pub id: i64,
    pub state: String,
    /// Nobody knows whether the message left.
    pub doubtful: bool,
    /// The server refused it: it can be sent again without a duplicate.
    pub resendable: bool,
    pub recipients: Vec<String>,
    pub last_error: Option<String>,
}

/// A file in the blob store, ready to be attached.
#[derive(Debug)]
pub struct Attached {
    pub filename: String,
    pub blob: String,
    pub size: u64,
}

/// A message that is not finished.
#[derive(Debug)]
pub struct Draft {
    pub id: Option<i64>,
    pub account: i64,
    pub to: String,
    pub cc: String,
    pub bcc: String,
    pub subject: String,
    pub body: String,
    pub in_reply_to: Option<String>,
    pub references: Vec<String>,
    pub sign: bool,
    pub attachments: Vec<Attached>,
    /// How a list names it.
    pub label: String,
    pub updated_at: i64,
}

/// A proposal for a recipient.
#[derive(Debug)]
pub struct Suggestion {
    pub label: String,
    pub seen_to: u64,
    pub seen_from: u64,
}

/// A message that was put in the sending queue.
#[derive(Debug)]
pub struct Queued {
    pub id: i64,
    pub recipients: Vec<String>,
    pub size: u64,
    /// The seconds during which the message can still be held back.
    pub hold: u64,
}

/// The bytes of a message, made readable.
#[derive(Debug)]
pub struct MessageSource {
    pub headers: String,
    pub body: String,
    pub total: u64,
    pub headers_truncated: bool,
    pub body_truncated: bool,
    pub invalid_sequences: usize,
    pub escaped_controls: usize,
}

impl Row {
    /// The same row.
    pub fn copy(&self) -> (r: Row)
        ensures
            r == *self,
    {
        Row {
            id: self.id,
            date: self.date,
            from: self.from.clone(),
            from_name: text::copy_opt(&self.from_name),
            subject: self.subject.clone(),
            unread: self.unread,
            flagged: self.flagged,
            has_attachments: self.has_attachments,
        }
    }
}

impl Folder {
    /// The same folder.
    pub fn copy(&self) -> (r: Folder)
        ensures
            r == *self,
    {
        Folder {
            id: self.id,
            account: self.account.clone(),
            path: self.path.clone(),
            kind: self.kind.clone(),
            total: self.total,
            unread: self.unread,
        }
    }
}

impl Attached {
    /// The same attachment.
    pub fn copy(&self) -> (r: Attached)
        ensures
            r == *self,
    {
        Attached { filename: self.filename.clone(), blob: self.blob.clone(), size: self.size }
    }
}

/// The first rows of a list.
pub fn copy_rows(rows: &Vec<Row>, n: usize) -> (r: Vec<Row>)
    requires
        n <= rows.len(),
    ensures
        r@ == rows@.take(n as int),
{
    let mut out: Vec<Row> = Vec::new();
    let mut i: usize = 0;
    while i < n
        invariant
            i <= n <= rows.len(),
            out@ == rows@.take(i as int),
        decreases n - i,
    {
        out.push(rows[i].copy());
        i = i + 1;
        assert(rows@.take(i as int) == rows@.take(i - 1).push(rows@[i - 1]));
    }
    out
}

/// The same folders.
pub fn copy_folders(folders: &Vec<Folder>) -> (r: Vec<Folder>)
    ensures
        r@ == folders@,
{
    let mut out: Vec<Folder> = Vec::new();
    let mut i: usize = 0;
    while i < folders.len()
        invariant
            i <= folders.len(),
            out@ == folders@.take(i as int),
        decreases folders.len() - i,
    {
        out.push(folders[i].copy());
        i = i + 1;
        assert(folders@.take(i as int) == folders@.take(i - 1).push(folders@[i - 1]));
    }
    assert(folders@.take(folders.len() as int) == folders@);
    out
}

/// The same attachments.
pub fn copy_attached(list: &Vec<Attached>) -> (r: Vec<Attached>)
    ensures
        r@ == list@,
{
    let mut out: Vec<Attached> = Vec::new();
    let mut i: usize = 0;
    while i < list.len()
        invariant
            i <= list.len(),
            out@ == list@.take(i as int),
        decreases list.len() - i,
    {
        out.push(list[i].copy());
        i = i + 1;
        assert(list@.take(i as int) == list@.take(i - 1).push(list@[i - 1]));
    }
    assert(list@.take(list.len() as int) == list@);
    out
}

} // verus!
