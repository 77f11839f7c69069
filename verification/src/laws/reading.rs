//! What is shown: the rows of a folder, what a search found, and the message that is read.
use crate::absorb;
use crate::actions;
use crate::dto::{Folder, Page, Results, Row};
use crate::protocol::{Opened, Reply, Request, SourceOf};
use crate::shell;
use crate::shell::{List, Shell};
use crate::text;
use vstd::prelude::*;
use vstd::string::*;

verus! {

// ---------------------------------------------------------------------------------------------
// A folder, page by page
// ---------------------------------------------------------------------------------------------

/// Whether nothing moved but the list and what the cache keeps of it.
pub open spec fn only_the_list(pre: Shell, post: Shell) -> bool {
    &&& post.reader == pre.reader
    &&& post.writing == pre.writing
    &&& post.panels == pre.panels
    &&& post.notices == pre.notices
    &&& post.trial == pre.trial
    &&& post.hello == pre.hello
    &&& post.fatal == pre.fatal
    &&& post.protocol == pre.protocol
}

/// The page that the list waits for goes under the rows that are loaded: those keep their places,
/// and the rows of the page follow them in its order. What comes next is behind the cursor of the
/// page, and nothing does where it has none.
pub proof fn the_next_page_follows_the_rows(
    pre: Shell,
    folder: i64,
    after: Option<String>,
    page: Page,
    now: u64,
    post: Shell,
)
    requires
        pre.list.current == Some(folder),
        text::opt_text(pre.list.cursor) == text::opt_text(after),
        !(pre.list.refreshing_head && after is None),
        absorb::absorbed(pre, Reply::Page { folder, after, page }, now, post),
    ensures
        post.list.rows@.len() == pre.list.rows@.len() + page.rows@.len(),
        post.list.rows@.take(pre.list.rows@.len() as int) == pre.list.rows@,
        post.list.rows@.skip(pre.list.rows@.len() as int) == page.rows@,
        post.list.cursor == page.next,
        post.list.exhausted == (page.next is None),
        !post.list.loading_page,
        post.list.current == Some(folder),
        post.list.folders == pre.list.folders,
        post.list.selected == pre.list.selected,
        post.list.results == pre.list.results,
        post.list.query == pre.list.query,
        only_the_list(pre, post),
{
    let rows = post.list.rows@;
    let n = pre.list.rows@.len() as int;
    assert(rows == pre.list.rows@ + page.rows@);
    assert(rows.take(n) == pre.list.rows@);
    assert(rows.skip(n) == page.rows@);
}

/// Two pages in a row are shown one under the other, and the second is asked for behind the cursor
/// that the first one gave.
pub proof fn pages_are_shown_one_under_the_other(
    pre: Shell,
    folder: i64,
    after: Option<String>,
    first: Page,
    second: Page,
    now: u64,
    mid: Shell,
    post: Shell,
)
    requires
        pre.list.current == Some(folder),
        text::opt_text(pre.list.cursor) == text::opt_text(after),
        !pre.list.refreshing_head,
        pre.list.results is None,
        first.next is Some,
        absorb::absorbed(pre, Reply::Page { folder, after, page: first }, now, mid),
        absorb::absorbed(mid, Reply::Page { folder, after: first.next, page: second }, now, post),
    ensures
        shell::page_asked(mid.list).len() == 1,
        shell::page_asked(mid.list)[0] matches Request::Page { folder: of, after: behind, limit }
            && of == folder && behind == first.next && limit == 100,
        post.list.rows@ == pre.list.rows@ + first.rows@ + second.rows@,
        second.next is None ==> shell::page_asked(post.list).len() == 0,
{
    the_next_page_follows_the_rows(pre, folder, after, first, now, mid);
    the_next_page_follows_the_rows(mid, folder, first.next, second, now, post);
    let n = pre.list.rows@.len() as int;
    let m = mid.list.rows@.len() as int;
    assert(mid.list.rows@ == mid.list.rows@.take(n) + mid.list.rows@.skip(n));
    assert(post.list.rows@ == post.list.rows@.take(m) + post.list.rows@.skip(m));
}

/// Whether a row is among others, by its number.
pub open spec fn is_among(id: i64, rows: Seq<Row>) -> bool {
    exists|i: int| 0 <= i < rows.len() && (#[trigger] rows[i]).id == id
}

/// A first page that is read again is laid over the rows: it stands at the head, and under it are
/// the rows that it does not hold, all of them and in their order. The place in the folder is kept
/// while any of them is.
pub proof fn a_fresh_page_is_laid_over_the_rows(
    pre: Shell,
    folder: i64,
    page: Page,
    now: u64,
    post: Shell,
)
    requires
        pre.list.refreshing_head,
        pre.list.current == Some(folder),
        absorb::absorbed(pre, Reply::Page { folder, after: None, page }, now, post),
    ensures
        page.rows@.len() == 0 ==> post.list.rows == pre.list.rows && post.list.cursor
            == pre.list.cursor && post.list.exhausted == pre.list.exhausted,
        page.rows@.len() > 0 ==> {
            let kept = pre.list.rows@.filter(|row: Row| !is_among(row.id, page.rows@));
            &&& post.list.rows@ == page.rows@ + kept
            &&& kept.len() > 0 ==> post.list.cursor == pre.list.cursor && post.list.exhausted
                == pre.list.exhausted
            &&& kept.len() == 0 ==> post.list.cursor == page.next && post.list.exhausted == (
            page.next is None)
        },
        !post.list.refreshing_head,
        post.list.loading_page == pre.list.loading_page,
        post.list.current == pre.list.current,
        post.list.selected == pre.list.selected,
        post.list.results == pre.list.results,
        only_the_list(pre, post),
{
    let here = |row: Row| !is_among(row.id, page.rows@);
    let there = |row: Row| !shell::has_row(page.rows@, row.id);
    assert(here =~= there);
}

/// A page of another folder, or behind another cursor, moves no row: the list is not what it was
/// asked for.
pub proof fn a_page_of_something_else_moves_no_row(
    pre: Shell,
    folder: i64,
    after: Option<String>,
    page: Page,
    now: u64,
    post: Shell,
)
    requires
        pre.list.current != Some(folder) || (text::opt_text(pre.list.cursor) != text::opt_text(
            after,
        ) && !(pre.list.refreshing_head && after is None)),
        absorb::absorbed(pre, Reply::Page { folder, after, page }, now, post),
    ensures
        post.list.rows == pre.list.rows,
        post.list.cursor == pre.list.cursor,
        post.list.exhausted == pre.list.exhausted,
        post.list.current == pre.list.current,
        post.list.results == pre.list.results,
        post.list.selected == pre.list.selected,
        post.cache == pre.cache,
        only_the_list(pre, post),
{
}

/// The first screen shows the folders, the folder that was opened, and its rows.
pub proof fn the_first_screen_shows_what_came(
    pre: Shell,
    folders: Vec<Folder>,
    folder: i64,
    page: Page,
    now: u64,
    post: Shell,
)
    requires
        absorb::absorbed(pre, Reply::Bootstrap { folders, folder, page }, now, post),
    ensures
        post.list.folders@ == folders@,
        post.list.current == Some(folder),
        post.list.rows@ == page.rows@,
        post.list.cursor == page.next,
        post.list.exhausted == (page.next is None),
        post.list.selected == pre.list.selected,
        only_the_list(pre, post),
{
}

/// A folder that is opened starts anew: nothing of what was shown is left, and its first page is
/// the one that is asked for and shown.
pub proof fn a_folder_starts_anew(pre: Shell, id: i64, page: Page, now: u64, mid: Shell, post: Shell)
    requires
        absorb::shows_folder(pre, id, mid),
        !pre.list.refreshing_head,
        absorb::absorbed(mid, Reply::Page { folder: id, after: None, page }, now, post),
    ensures
        mid.list.current == Some(id),
        mid.list.rows@.len() == 0,
        mid.list.selected is None,
        mid.list.results is None,
        mid.list.loading_page,
        mid.reader.message is None,
        mid.reader.body@.len() == 0,
        mid.reader.thread@.len() == 0,
        mid.reader.open_error is None,
        mid.writing == pre.writing,
        mid.list.folders == pre.list.folders,
        shell::first_page(id) matches Request::Page { folder, after, limit } && folder == id
            && after is None && limit == 100,
        post.list.rows@ == page.rows@,
        post.list.current == Some(id),
{
    the_next_page_follows_the_rows(mid, id, None, page, now, post);
    assert(post.list.rows@ == post.list.rows@.skip(0));
}

/// The list of the folders is the one that came; where a folder is open already it stays open.
pub proof fn the_folders_are_those_that_came(
    pre: Shell,
    folders: Vec<Folder>,
    now: u64,
    post: Shell,
)
    requires
        absorb::absorbed(pre, Reply::Folders(folders), now, post),
    ensures
        post.list.folders@ == folders@,
        pre.list.current is Some ==> post.list == (List { folders: post.list.folders, ..pre.list })
            && post.reader == pre.reader && absorb::asks_of(pre, Reply::Folders(folders)).len() == 0,
        pre.list.current is None && folders@.len() > 0 ==> {
            &&& post.list.current matches Some(id)
            &&& exists|i: int| 0 <= i < folders@.len() && (#[trigger] folders@[i]).id == id
            &&& absorb::asks_of(pre, Reply::Folders(folders)) == seq![
                Request::Page { folder: id, after: None, limit: 100 },
            ]
        },
{
    if pre.list.current is None && folders@.len() > 0 {
        crate::worker::a_folder_opens_first(folders@);
        assert(crate::worker::opening(folders@) is Some);
    }
}

// ---------------------------------------------------------------------------------------------
// A search
// ---------------------------------------------------------------------------------------------

/// What a search found is shown in place of the folder, and the folder comes back as it was when
/// the search is put away.
pub proof fn a_search_hides_the_folder_and_gives_it_back(
    pre: Shell,
    found: Results,
    now: u64,
    post: Shell,
    after: List,
)
    requires
        pre.list.results is None,
        absorb::absorbed(pre, Reply::Search(found), now, post),
        actions::search_cleared(post.list, after),
    ensures
        found.search_available ==> post.list.shown() == found.rows@,
        !found.search_available ==> post.list.shown().len() == 0 && post.notices.status is Some,
        !post.list.searching,
        post.list.rows == pre.list.rows,
        post.list.cursor == pre.list.cursor,
        post.list.current == pre.list.current,
        post.reader == pre.reader,
        post.writing == pre.writing,
        after.shown() == pre.list.rows@,
        after.shown() == pre.list.shown(),
        after.rows == pre.list.rows,
        after.cursor == pre.list.cursor,
        after.query@.len() == 0,
{
    reveal_strlit("");
}

/// A search is for the words that were typed, without the white space around them; without a word
/// nothing is searched, and the folder is shown.
pub proof fn a_search_is_for_what_was_typed(
    pre: Shell,
    before: Seq<Request>,
    after: Seq<Request>,
)
    requires
        actions::asked(before, after, actions::search_asks(pre)),
    ensures
        text::trimmed(pre.list.query@).len() > 0 ==> after.len() == before.len() + 1 && (
        after.last() matches Request::Search { query, limit } && query@ == text::trimmed(
            pre.list.query@,
        ) && limit == 200) && actions::search_run(pre).list.searching,
        text::trimmed(pre.list.query@).len() == 0 ==> after.len() == before.len()
            && actions::search_run(pre).list.results is None,
        forall|i: int| 0 <= i < before.len() ==> after[i] == before[i],
        text::trimmed(pre.list.query@).len() > 0 ==> actions::search_run(pre).list.results
            == pre.list.results,
        actions::search_run(pre).list.rows == pre.list.rows,
        actions::search_run(pre).list.query == pre.list.query,
        actions::search_run(pre).reader == pre.reader,
{
    let n = before.len() as int;
    if text::trimmed(pre.list.query@).len() > 0 {
        assert(actions::grants(after[n + 0], actions::search_asks(pre)[0]));
    }
    assert forall|i: int| 0 <= i < before.len() implies after[i] == before[i] by {
        assert(after.take(n)[i] == after[i]);
    }
}

// ---------------------------------------------------------------------------------------------
// The message that is read
// ---------------------------------------------------------------------------------------------

/// The message that is read is the one that came, with the body that came with it: nothing of what
/// was read before is left. Its thread is asked for where it has one, and it is that of the same
/// message. One that is gone is said to be, and leaves nothing to read.
pub proof fn the_message_that_is_read_is_the_one_that_came(
    pre: Shell,
    opened: Opened,
    now: u64,
    post: Shell,
    gone: Shell,
)
    requires
        absorb::absorbed(pre, Reply::Open(Some(opened)), now, post),
        absorb::absorbed(pre, Reply::Open(None), now, gone),
    ensures
        post.reader.message == Some(opened.message),
        post.reader.body@ == opened.body@,
        post.reader.thread@.len() == 0,
        !post.reader.opening,
        post.reader.body_shown == 400,
        post.reader.images_shown == pre.reader.images_shown,
        post.list == pre.list,
        post.writing == pre.writing,
        post.panels == pre.panels,
        opened.message.thread is Some ==> absorb::asks_of(pre, Reply::Open(Some(opened))) == seq![
            Request::Thread { id: opened.message.row.id },
        ],
        opened.message.thread is None ==> absorb::asks_of(pre, Reply::Open(Some(opened))).len()
            == 0,
        gone.reader.message is None,
        gone.reader.body@.len() == 0,
        gone.reader.thread@.len() == 0,
        !gone.reader.opening,
        gone.reader.open_error is Some,
        gone.list == pre.list,
{
}

/// The thread that is shown is the one that came, under the message that is read.
pub proof fn the_thread_is_the_one_that_came(pre: Shell, rows: Vec<Row>, now: u64, post: Shell)
    requires
        absorb::absorbed(pre, Reply::Thread(rows), now, post),
    ensures
        post.reader.thread@ == rows@,
        post.reader.message == pre.reader.message,
        post.reader.body == pre.reader.body,
        post.list == pre.list,
        post.writing == pre.writing,
{
}

/// Opening a message selects it and asks for it, with its remote images only where they are
/// wanted, and has it marked as read in the folder that is looked at; what is read stays until it
/// comes.
pub proof fn opening_a_message_asks_for_it(pre: Shell, id: i64, with_images: bool)
    ensures
        ({
            let asks = actions::opening_asks(pre, id, with_images);
            let post = actions::opening(pre, id, with_images);
            &&& asks.len() >= 1
            &&& asks[0] matches Request::Open { id: of, remote_images } && of == id
                && remote_images == with_images
            &&& match pre.list.current {
                Some(folder) => asks.len() == 2 && asks[1] == (Request::MarkRead { id, folder }),
                None => asks.len() == 1,
            }
            &&& post.list.selected == Some(id)
            &&& post.reader.opening
            &&& post.reader.open_error is None
            &&& post.reader.images_shown == with_images
            &&& post.reader.message == pre.reader.message
            &&& post.reader.body == pre.reader.body
            &&& post.list.rows == pre.list.rows
            &&& post.writing == pre.writing
        }),
{
}

/// The source that is shown is that of the message that is read, and it is its bytes that are
/// asked for; what comes is shown where the window still waits for it.
pub proof fn the_source_is_that_of_the_message(
    pre: Shell,
    mid: Shell,
    found: Option<crate::dto::MessageSource>,
    now: u64,
    post: Shell,
)
    requires
        pre.reader.message is Some,
        actions::source_shown(pre, mid),
        absorb::absorbed(
            mid,
            Reply::Source { of: SourceOf::Message(pre.reader.message->0.row.id), found },
            now,
            post,
        ),
    ensures
        actions::source_asks(pre) == seq![
            Request::Source { of: SourceOf::Message(pre.reader.message->0.row.id) },
        ],
        mid.panels.source matches Some(view) && view.of == SourceOf::Message(
            pre.reader.message->0.row.id,
        ) && view.found is None && view.error is None,
        post.panels.source matches Some(view) && view.of == SourceOf::Message(
            pre.reader.message->0.row.id,
        ) && view.found == found && (view.error is Some <==> found is None),
        post.reader == pre.reader,
        post.list == pre.list,
{
}

} // verus!
