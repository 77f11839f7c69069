//! The threads between the interface and the service: what they ask for next, and what they tell
//! the interface of what they heard.
use crate::dto::{Attached, Folder, Page};
use crate::protocol;
use crate::protocol::{Answer, Decoded, Reply};
use crate::text;
use vstd::prelude::*;
use vstd::string::*;

verus! {

// ---------------------------------------------------------------------------------------------
// The transport, as a thread knows it
// ---------------------------------------------------------------------------------------------

/// Whether a reply says that the transport failed.
pub open spec fn breaks(reply: Reply) -> bool {
    reply matches Reply::Failed { what: _, message: _, transport } && transport
}

/// What the interactive thread knows of the transport after a reply, and whether it first tells
/// the interface that the transport is back.
pub open spec fn announced(down: bool, reply: Reply) -> (bool, bool) {
    if breaks(reply) {
        (true, false)
    } else {
        (false, down)
    }
}

/// What the interactive thread knows of the transport after a reply, and whether it first tells
/// the interface that the transport is back: once, and only after a failure.
pub fn announce(down: bool, reply: &Reply) -> (r: (bool, bool))
    ensures
        r == announced(down, *reply),
{
    let broken = match reply {
        Reply::Failed { transport, .. } => *transport,
        _ => false,
    };
    if broken {
        (true, false)
    } else {
        (false, down)
    }
}

/// The transport as the thread knows it after a series of replies.
pub open spec fn down_after(replies: Seq<Reply>) -> bool
    decreases replies.len(),
{
    if replies.len() == 0 {
        false
    } else {
        announced(down_after(replies.drop_last()), replies.last()).0
    }
}

/// The return of the transport is announced exactly before the first reply that is no failure of
/// the transport after one that is.
pub proof fn a_return_is_announced_once(replies: Seq<Reply>)
    requires
        replies.len() > 0,
    ensures
        announced(down_after(replies.drop_last()), replies.last()).1 <==> (replies.len() > 1
            && breaks(replies[replies.len() - 2]) && !breaks(replies.last())),
    decreases replies.len(),
{
    if replies.len() > 1 {
        assert(replies.drop_last().last() == replies[replies.len() - 2]);
    }
}

// ---------------------------------------------------------------------------------------------
// The subscription
// ---------------------------------------------------------------------------------------------

/// How long the service may keep the subscription waiting, in milliseconds.
pub const WAIT_MS: u64 = 30000;

/// How long the subscription rests after a failure, in milliseconds.
pub const BACKOFF_MS: u64 = 2000;

/// What the subscription knows: the revision of the store, and whether the transport is down.
pub struct Subscription {
    pub known: Option<String>,
    pub down: bool,
}

/// What the subscription asks for.
pub enum Ask {
    /// The revision of the store.
    Revision,
    /// To be woken when the store is no longer at this revision.
    Wait { revision: String, timeout_ms: u64 },
}

/// What the subscription heard.
pub enum Heard {
    /// The revision of the store.
    Revision(String),
    /// Whether the store has moved, and to which revision.
    Change { changed: bool, revision: String },
    /// An answer that cannot be read.
    Unreadable,
    Refused,
    Down(String),
}

/// What the subscription tells the interface.
pub enum Sign {
    Failed(Seq<char>),
    Online,
    Changed,
}

/// What the subscription does with what it heard.
pub struct Step {
    pub replies: Vec<Reply>,
    /// Whether it rests before it asks again.
    pub rest: bool,
}

/// Whether a reply is a sign.
pub open spec fn shows(reply: Reply, sign: Sign) -> bool {
    match sign {
        Sign::Failed(message) => protocol::is_failure(reply, "abonnement"@, message, true),
        Sign::Online => reply == Reply::Online,
        Sign::Changed => reply == Reply::Changed,
    }
}

/// Whether replies are signs, one for one.
pub open spec fn show(replies: Seq<Reply>, signs: Seq<Sign>) -> bool {
    &&& replies.len() == signs.len()
    &&& forall|i: int| 0 <= i < signs.len() ==> #[trigger] shows(replies[i], signs[i])
}

/// The state of a subscription, in values.
pub struct Known {
    pub revision: Option<Seq<char>>,
    pub down: bool,
}

/// A failure of the transport, told once for each episode.
pub open spec fn fault(down: bool, message: Seq<char>) -> Seq<Sign> {
    if down {
        seq![]
    } else {
        seq![Sign::Failed(message)]
    }
}

/// The return of the transport, told where it was down.
pub open spec fn return_of(down: bool) -> Seq<Sign> {
    if down {
        seq![Sign::Online]
    } else {
        seq![]
    }
}

/// What becomes of the state, what the interface is told, and whether the subscription rests,
/// when an answer comes. Without a revision, one was asked for; with one, the store was waited
/// for. An answer to the other question cannot be read.
pub open spec fn step_of(state: Known, heard: Heard) -> (Known, Seq<Sign>, bool) {
    match state.revision {
        None => match heard {
            Heard::Revision(revision) => (
                Known { revision: Some(revision@), down: state.down },
                seq![],
                false,
            ),
            Heard::Down(message) => (
                Known { revision: None, down: true },
                fault(state.down, message@),
                true,
            ),
            _ => (state, seq![], true),
        },
        Some(_) => match heard {
            Heard::Change { changed, revision } => if changed {
                (
                    Known { revision: Some(revision@), down: false },
                    return_of(state.down).push(Sign::Changed),
                    false,
                )
            } else {
                (Known { revision: state.revision, down: false }, return_of(state.down), false)
            },
            Heard::Refused => (Known { revision: None, down: state.down }, seq![], true),
            Heard::Down(message) => (
                Known { revision: None, down: true },
                fault(state.down, message@),
                true,
            ),
            _ => (Known { revision: None, down: false }, return_of(state.down), true),
        },
    }
}

impl Subscription {
    /// The state, in values.
    pub open spec fn state(self) -> Known {
        Known { revision: text::opt_text(self.known), down: self.down }
    }

    /// A subscription that knows nothing yet.
    pub fn new() -> (r: Subscription)
        ensures
            r.state() == (Known { revision: None, down: false }),
    {
        Subscription { known: None, down: false }
    }

    /// What to ask for next.
    pub fn next(&self) -> (r: Ask)
        ensures
            match self.known {
                None => r is Revision,
                Some(known) => r == (Ask::Wait { revision: known, timeout_ms: WAIT_MS }),
            },
    {
        match &self.known {
            None => Ask::Revision,
            Some(known) => Ask::Wait { revision: known.clone(), timeout_ms: WAIT_MS },
        }
    }

    fn fault(&mut self, message: String, replies: &mut Vec<Reply>)
        ensures
            final(self).known == old(self).known,
            final(self).down,
            exists|more: Seq<Reply>|
                final(replies)@ == old(replies)@ + more && #[trigger] show(
                    more,
                    fault(old(self).down, message@),
                ),
    {
        let ghost before = replies@;
        if self.down {
            assert(replies@ == before + Seq::<Reply>::empty());
            assert(show(Seq::empty(), fault(true, message@)));
        } else {
            self.down = true;
            let ghost words = message@;
            let reply = Reply::Failed { what: "abonnement", message, transport: true };
            assert(show(seq![reply], fault(false, words)));
            assert(before.push(reply) == before + seq![reply]);
            replies.push(reply);
        }
    }

    /// Takes an answer in.
    pub fn hear(&mut self, heard: Heard) -> (r: Step)
        ensures
            final(self).state() == step_of(old(self).state(), heard).0,
            show(r.replies@, step_of(old(self).state(), heard).1),
            r.rest == step_of(old(self).state(), heard).2,
    {
        let mut replies: Vec<Reply> = Vec::new();
        if self.known.is_none() {
            match heard {
                Heard::Revision(revision) => {
                    self.known = Some(revision);
                    Step { replies, rest: false }
                },
                Heard::Down(message) => {
                    self.fault(message, &mut replies);
                    Step { replies, rest: true }
                },
                _ => Step { replies, rest: true },
            }
        } else {
            match heard {
                Heard::Refused => {
                    self.known = None;
                    Step { replies, rest: true }
                },
                Heard::Down(message) => {
                    self.known = None;
                    self.fault(message, &mut replies);
                    Step { replies, rest: true }
                },
                Heard::Change { changed, revision } => {
                    if self.down {
                        self.down = false;
                        replies.push(Reply::Online);
                    }
                    if changed {
                        self.known = Some(revision);
                        replies.push(Reply::Changed);
                    }
                    Step { replies, rest: false }
                },
                _ => {
                    if self.down {
                        self.down = false;
                        replies.push(Reply::Online);
                    }
                    self.known = None;
                    Step { replies, rest: true }
                },
            }
        }
    }
}

/// The state of a subscription after a series of answers.
pub open spec fn state_after(heard: Seq<Heard>) -> Known
    decreases heard.len(),
{
    if heard.len() == 0 {
        Known { revision: None, down: false }
    } else {
        step_of(state_after(heard.drop_last()), heard.last()).0
    }
}

/// Everything that a subscription tells the interface over a series of answers.
pub open spec fn told_after(heard: Seq<Heard>) -> Seq<Sign>
    decreases heard.len(),
{
    if heard.len() == 0 {
        seq![]
    } else {
        told_after(heard.drop_last()) + step_of(state_after(heard.drop_last()), heard.last()).1
    }
}

/// How many failures are told.
pub open spec fn failures(signs: Seq<Sign>) -> nat {
    signs.filter(|s: Sign| s is Failed).len()
}

/// How many returns are told.
pub open spec fn returns_told(signs: Seq<Sign>) -> nat {
    signs.filter(|s: Sign| s is Online).len()
}

/// Over any series of answers, each failure that is told but the last is followed by a return
/// before the next one: there is one more failure than returns while the transport is down, and
/// as many of the one as of the other while it is not.
pub proof fn a_failure_is_told_once_for_each_episode(heard: Seq<Heard>)
    ensures
        failures(told_after(heard)) == returns_told(told_after(heard)) + if state_after(heard).down {
            1int
        } else {
            0int
        },
    decreases heard.len(),
{
    reveal(Seq::filter);
    if heard.len() > 0 {
        let before = heard.drop_last();
        a_failure_is_told_once_for_each_episode(before);
        let now = step_of(state_after(before), heard.last()).1;
        let f = |s: Sign| s is Failed;
        let o = |s: Sign| s is Online;
        Seq::filter_distributes_over_add(told_after(before), now, f);
        Seq::filter_distributes_over_add(told_after(before), now, o);
        reveal_with_fuel(Seq::filter, 3);
        if now.len() > 0 {
            assert(now.drop_last() =~= if now.len() == 1 {
                seq![]
            } else {
                seq![now[0]]
            });
            if now.len() == 2 {
                assert(now.drop_last().drop_last() =~= seq![]);
            }
        }
        assert(now.filter(f).len() == if now.len() > 0 && now[0] is Failed {
            1int
        } else {
            0int
        });
        assert(now.filter(o).len() == if now.len() > 0 && now[0] is Online {
            1int
        } else {
            0int
        });
    }
}

/// The interface is told that the store has moved exactly when the service says so of a revision
/// that the subscription was waiting on.
pub proof fn a_change_is_told_exactly_when_the_store_moved(state: Known, heard: Heard)
    ensures
        step_of(state, heard).1.contains(Sign::Changed) <==> (state.revision is Some && (
        heard matches Heard::Change { changed, revision: _ } && changed)),
{
    let now = step_of(state, heard).1;
    if state.revision is Some && (heard matches Heard::Change { changed, revision: _ } && changed) {
        assert(now[now.len() - 1] == Sign::Changed);
    }
}

// ---------------------------------------------------------------------------------------------
// The first screen
// ---------------------------------------------------------------------------------------------

/// Whether a folder is the inbox.
pub open spec fn is_inbox(folder: Folder) -> bool {
    folder.kind@ == "inbox"@
}

/// Whether a folder is the one that opens first: the first inbox, failing that the first folder.
pub open spec fn opens(folders: Seq<Folder>, i: int) -> bool {
    &&& 0 <= i < folders.len()
    &&& if exists|j: int| 0 <= j < folders.len() && #[trigger] is_inbox(folders[j]) {
        is_inbox(folders[i]) && forall|j: int| 0 <= j < i ==> !#[trigger] is_inbox(folders[j])
    } else {
        i == 0
    }
}

/// One folder opens first, unless there is none.
pub proof fn one_folder_opens_first(folders: Seq<Folder>, i: int, j: int)
    requires
        opens(folders, i),
        opens(folders, j),
    ensures
        i == j,
{
    if i < j {
        assert(!is_inbox(folders[i]) || i == j);
    } else if j < i {
        assert(!is_inbox(folders[j]) || i == j);
    }
}

/// The folder that opens first, where there is one.
pub open spec fn opening(folders: Seq<Folder>) -> Option<i64> {
    if exists|i: int| opens(folders, i) {
        Some(folders[choose|i: int| opens(folders, i)].id)
    } else {
        None
    }
}

/// A folder opens first wherever there is a folder.
pub proof fn a_folder_opens_first(folders: Seq<Folder>)
    ensures
        opening(folders) is Some <==> folders.len() > 0,
{
    if folders.len() > 0 {
        if exists|j: int| 0 <= j < folders.len() && #[trigger] is_inbox(folders[j]) {
            let j = choose|j: int| 0 <= j < folders.len() && #[trigger] is_inbox(folders[j]);
            lemma_first_inbox(folders, j);
        } else {
            assert(opens(folders, 0));
        }
    }
}

proof fn lemma_first_inbox(folders: Seq<Folder>, j: int)
    requires
        0 <= j < folders.len(),
        is_inbox(folders[j]),
    ensures
        exists|i: int| opens(folders, i),
    decreases j,
{
    if exists|k: int| 0 <= k < j && #[trigger] is_inbox(folders[k]) {
        let k = choose|k: int| 0 <= k < j && #[trigger] is_inbox(folders[k]);
        lemma_first_inbox(folders, k);
    } else {
        assert(opens(folders, j));
    }
}

/// The folder that opens first, where there is one.
pub fn opening_folder(folders: &Vec<Folder>) -> (r: Option<i64>)
    ensures
        r == opening(folders@),
        r is Some <==> folders@.len() > 0,
{
    let mut i: usize = 0;
    while i < folders.len()
        invariant
            i <= folders.len(),
            forall|j: int| 0 <= j < i ==> !#[trigger] is_inbox(folders@[j]),
        decreases folders.len() - i,
    {
        if text::same(folders[i].kind.as_str(), "inbox") {
            assert(is_inbox(folders@[i as int]));
            assert(opens(folders@, i as int));
            proof {
                let k = choose|k: int| opens(folders@, k);
                one_folder_opens_first(folders@, i as int, k);
            }
            return Some(folders[i].id);
        }
        i = i + 1;
    }
    if folders.len() > 0 {
        assert(opens(folders@, 0));
        proof {
            let k = choose|k: int| opens(folders@, k);
            one_folder_opens_first(folders@, 0, k);
        }
        Some(folders[0].id)
    } else {
        None
    }
}

/// What follows the list of folders of the first screen.
pub enum Screen {
    /// The folders are known: the first page of this one is asked for.
    Page { folders: Vec<Folder>, folder: i64 },
    /// The screen is complete, or cannot be served.
    Reply(Reply),
}

/// Whether a reply is the failure of the first screen that an answer other than a list makes.
pub open spec fn screen_failure(
    answer: Answer,
    unexpected: Seq<char>,
    unreadable: Seq<char>,
    reply: Reply,
) -> bool {
    match answer {
        Answer::Down(message) => protocol::is_failure(reply, "premier écran"@, message@, true),
        Answer::Refused(message) => protocol::is_failure(reply, "premier écran"@, message@, false),
        Answer::Done(decoded) => match decoded {
            Decoded::Unreadable(why) => protocol::is_failure(
                reply,
                "premier écran"@,
                unexpected + why@,
                false,
            ),
            _ => protocol::is_failure(reply, "premier écran"@, unreadable, false),
        },
    }
}

fn failed_screen(answer: Answer, unexpected: &str, unreadable: &str) -> (r: Reply)
    ensures
        screen_failure(answer, unexpected@, unreadable@, r),
{
    match answer {
        Answer::Down(message) => Reply::Failed { what: "premier écran", message, transport: true },
        Answer::Refused(message) => Reply::Failed {
            what: "premier écran",
            message,
            transport: false,
        },
        Answer::Done(decoded) => {
            let message = match decoded {
                Decoded::Unreadable(why) => {
                    let mut message = unexpected.to_owned();
                    message.append(why.as_str());
                    message
                },
                _ => unreadable.to_owned(),
            };
            Reply::Failed { what: "premier écran", message, transport: false }
        },
    }
}

/// What the list of folders makes of the first screen. A store without a folder opens on an empty
/// page.
pub fn screen_of(answer: Answer) -> (r: Screen)
    ensures
        match (answer, r) {
            (
                Answer::Done(Decoded::Folders(list)),
                Screen::Page { folders, folder },
            ) => folders == list && opening(list@) == Some(folder),
            (Answer::Done(Decoded::Folders(list)), Screen::Reply(reply)) => {
                &&& list@.len() == 0
                &&& reply matches Reply::Bootstrap { folders, folder, page }
                &&& folders == list
                &&& folder == 0
                &&& page.rows@.len() == 0
                &&& page.next is None
            },
            (other, Screen::Reply(reply)) => screen_failure(
                other,
                "liste de dossiers inattendue : "@,
                "dossiers illisibles"@,
                reply,
            ),
            (_, Screen::Page { folders: _, folder: _ }) => false,
        },
{
    match answer {
        Answer::Done(Decoded::Folders(folders)) => match opening_folder(&folders) {
            Some(folder) => Screen::Page { folders, folder },
            None => Screen::Reply(
                Reply::Bootstrap { folders, folder: 0, page: Page { rows: Vec::new(), next: None } },
            ),
        },
        other => Screen::Reply(
            failed_screen(other, "liste de dossiers inattendue : ", "dossiers illisibles"),
        ),
    }
}

/// What the first page makes of the first screen.
pub fn bootstrap(folders: Vec<Folder>, folder: i64, answer: Answer) -> (r: Reply)
    ensures
        match answer {
            Answer::Done(Decoded::Page(page)) => r == (Reply::Bootstrap { folders, folder, page }),
            other => screen_failure(other, "page inattendue : "@, "page illisible"@, r),
        },
{
    match answer {
        Answer::Done(Decoded::Page(page)) => Reply::Bootstrap { folders, folder, page },
        other => failed_screen(other, "page inattendue : ", "page illisible"),
    }
}

// ---------------------------------------------------------------------------------------------
// A file to attach
// ---------------------------------------------------------------------------------------------

/// Why a file cannot be attached through a service on another machine.
pub open spec fn remote_stage() -> Seq<char> {
    "joindre un fichier demande un service local : un démon distant n'a pas accès au fichier, et le téléverser n'est pas encore écrit."@
}

/// Why no file can be attached, where none can.
pub fn stage_refusal(remote: bool) -> (r: Option<&'static str>)
    ensures
        text::opt_str(r) == if remote {
            Some(remote_stage())
        } else {
            None
        },
{
    if remote {
        Some(
            "joindre un fichier demande un service local : un démon distant n'a pas accès au fichier, et le téléverser n'est pas encore écrit.",
        )
    } else {
        None
    }
}

/// Where the staging of a file stopped.
#[derive(Debug, Clone, Copy, PartialEq, Eq, Structural)]
pub enum StageStop {
    Open,
    Size,
    Store,
}

/// The words for a file that could not be staged.
pub open spec fn stage_failure(path: Seq<char>, stop: StageStop, why: Seq<char>) -> Seq<char> {
    match stop {
        StageStop::Open => path + " illisible : "@ + why,
        StageStop::Size => "taille de "@ + path + " : "@ + why,
        StageStop::Store => "mise au magasin de "@ + path + " : "@ + why,
    }
}

/// The words for a file that could not be staged.
pub fn stage_failed(path: &str, stop: StageStop, why: &str) -> (r: String)
    ensures
        r@ == stage_failure(path@, stop, why@),
{
    let mut out = match stop {
        StageStop::Open => {
            let mut words = path.to_owned();
            words.append(" illisible : ");
            words
        },
        StageStop::Size => {
            let mut words = "taille de ".to_owned();
            words.append(path);
            words.append(" : ");
            words
        },
        StageStop::Store => {
            let mut words = "mise au magasin de ".to_owned();
            words.append(path);
            words.append(" : ");
            words
        },
    };
    out.append(why);
    out
}

/// A path that every system cuts at its slashes alone: none of the marks that some systems read
/// as a drive, a share or another separator stands in it.
pub open spec fn plain_path(path: Seq<char>) -> bool {
    &&& !path.contains('\\')
    &&& !path.contains(':')
    &&& !(path.len() >= 2 && path[0] == '/' && path[1] == '/')
}

/// The last of the parts of a path that counts: those that hold nothing, or one dot, do not.
pub open spec fn last_part(parts: Seq<Seq<char>>) -> Option<Seq<char>>
    decreases parts.len(),
{
    if parts.len() == 0 {
        None
    } else if parts.last().len() == 0 || parts.last() == "."@ {
        last_part(parts.drop_last())
    } else {
        Some(parts.last())
    }
}

/// The name that a path ends in, where it ends in one: not where it goes up a directory, nor where
/// no part of it counts.
pub open spec fn path_name(path: Seq<char>) -> Option<Seq<char>> {
    match last_part(text::split(path, '/')) {
        Some(part) => if part == ".."@ {
            None
        } else {
            Some(part)
        },
        None => None,
    }
}

/// `camino::Utf8Path::file_name`: the last component of a path, where it is a name; slashes and
/// single dots behind it do not count. Which characters separate the components depends on the
/// system: the contract says which name it is of the paths that every system cuts alike, and of any
/// other path that the name stands in it.
#[verifier::external_body]
fn file_name(path: &str) -> (r: Option<String>)
    ensures
        r matches Some(name) ==> text::occurs(name@, path@),
        plain_path(path@) ==> text::opt_text(r) == path_name(path@),
{
    camino::Utf8Path::new(path).file_name().map(|name| name.to_owned())
}

/// A file in the store, under its name or, where its path ends in none, under a neutral one.
pub fn named(name: Option<String>, blob: String, size: u64) -> (r: Attached)
    ensures
        r.blob == blob,
        r.size == size,
        r.filename@ == match name {
            Some(name) => name@,
            None => "piece-jointe"@,
        },
{
    Attached {
        filename: match name {
            Some(name) => name,
            None => "piece-jointe".to_owned(),
        },
        blob,
        size,
    }
}

/// A file in the store, under the last name of the path it comes from.
pub fn attached(path: &str, blob: String, size: u64) -> (r: Attached)
    ensures
        r.blob == blob,
        r.size == size,
        text::occurs(r.filename@, path@) || r.filename@ == "piece-jointe"@,
        plain_path(path@) ==> r.filename@ == match path_name(path@) {
            Some(name) => name,
            None => "piece-jointe"@,
        },
{
    named(file_name(path), blob, size)
}

} // verus!
