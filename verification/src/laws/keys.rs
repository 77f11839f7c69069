//! The keys and the small gestures: which row they lead to, and what they leave as it is.
use crate::actions;
use crate::actions::{Keys, Purge};
use crate::dto::{Folder, Row};
use crate::protocol::Request;
use crate::shell;
use crate::shell::{List, Shell};
use crate::text;
use vstd::prelude::*;
use vstd::string::*;

verus! {

/// The rows on the screen: what a search found, or else the folder.
pub open spec fn on_screen(list: List) -> Seq<Row> {
    match list.results {
        Some(found) => found@,
        None => list.rows@,
    }
}

/// Whether one key that moves the selection was pressed and no other key, and by how many rows it
/// moves.
pub open spec fn one_move(keys: Keys, step: int) -> bool {
    &&& !keys.open && !keys.search && !keys.escape
    &&& match (keys.down, keys.up, keys.page_down, keys.page_up) {
        (true, false, false, false) => step == 1,
        (false, true, false, false) => step == -1,
        (false, false, true, false) => step == 20,
        (false, false, false, true) => step == -20,
        _ => false,
    }
}

proof fn lemma_selected(list: List, k: int, id: i64)
    requires
        0 <= k < on_screen(list).len(),
        list.selected == Some(id),
        on_screen(list)[k].id == id,
        forall|j: int| 0 <= j < k ==> (#[trigger] on_screen(list)[j]).id != id,
    ensures
        actions::selected_at(list) == Some(k),
{
    let rows = list.shown();
    assert(rows == on_screen(list));
    match list.selected {
        Some(x) => {
            assert(actions::is_row(list.shown(), k, x));
        },
        None => {},
    }
    let i = choose|i: int| actions::is_row(list.shown(), i, id);
    assert(actions::selected_at(list) == Some(i));
    assert(actions::is_row(rows, i, id));
    if i < k {
        assert(on_screen(list)[i].id != id);
    } else if k < i {
        assert(rows[k].id != id);
    }
}

/// The arrows lead to the row below and the row above, the page keys twenty rows further: the row
/// that they lead to is opened, without its remote images, and never one above the first.
pub proof fn the_keys_lead_to_the_next_row(
    shell: &mut Shell,
    keys: Keys,
    out: &mut Vec<Request>,
    k: int,
    step: int,
    next: int,
)
    requires
        call_ensures(Shell::keyboard, (shell, keys, out), ()),
        one_move(keys, step),
        0 <= k < on_screen(old(shell).list).len(),
        old(shell).list.selected == Some(on_screen(old(shell).list)[k].id),
        forall|j: int|
            0 <= j < k ==> (#[trigger] on_screen(old(shell).list)[j]).id != on_screen(
                old(shell).list,
            )[k].id,
        next == (if k + step < 0 {
            0
        } else {
            k + step
        }),
        next < on_screen(old(shell).list).len(),
    ensures
        final(shell).list.selected == Some(on_screen(old(shell).list)[next].id),
        final(out)@.len() > old(out)@.len(),
        final(out)@[old(out)@.len() as int] == (Request::Open {
            id: on_screen(old(shell).list)[next].id,
            remote_images: false,
        }),
        on_screen(final(shell).list) == on_screen(old(shell).list),
        final(shell).list.current == old(shell).list.current,
        final(shell).writing == old(shell).writing,
        final(shell).panels == old(shell).panels,
{
    let rows = on_screen(old(shell).list);
    let (mid, more) = choose|mid: List, more: Seq<Request>| #[trigger]
        actions::keyed(*old(shell), keys, mid, *final(shell), more) && final(out)@ == old(out)@
            + more;
    assert(actions::keyed(*old(shell), keys, mid, *final(shell), more));
    assert(actions::moves(keys) == step);
    assert(mid == old(shell).list);
    let id = rows[k].id;
    lemma_selected(mid, k, id);
    let asks = actions::opening_asks(Shell { list: mid, ..*old(shell) }, rows[next].id, false);
    assert(more == asks);
    assert(final(out)@[old(out)@.len() as int] == asks[0]);
}

/// Below the last row that is loaded, the next page is asked for and the selection stays.
pub proof fn below_the_last_row_the_next_page_is_asked_for(
    shell: &mut Shell,
    keys: Keys,
    out: &mut Vec<Request>,
    k: int,
    step: int,
    folder: i64,
)
    requires
        call_ensures(Shell::keyboard, (shell, keys, out), ()),
        one_move(keys, step),
        step > 0,
        0 <= k < on_screen(old(shell).list).len(),
        old(shell).list.selected == Some(on_screen(old(shell).list)[k].id),
        forall|j: int|
            0 <= j < k ==> (#[trigger] on_screen(old(shell).list)[j]).id != on_screen(
                old(shell).list,
            )[k].id,
        k + step >= on_screen(old(shell).list).len(),
        old(shell).list.current == Some(folder),
        old(shell).list.results is None,
        !old(shell).list.exhausted,
        !old(shell).list.loading_page,
    ensures
        final(shell).list.selected == old(shell).list.selected,
        final(shell).reader == old(shell).reader,
        final(shell).list.loading_page,
        final(out)@.len() == old(out)@.len() + 1,
        final(out)@.last() matches Request::Page { folder: of, after, limit: _ } && of == folder
            && text::opt_text(after) == text::opt_text(old(shell).list.cursor),
{
    let rows = on_screen(old(shell).list);
    let (mid, more) = choose|mid: List, more: Seq<Request>| #[trigger]
        actions::keyed(*old(shell), keys, mid, *final(shell), more) && final(out)@ == old(out)@
            + more;
    assert(actions::keyed(*old(shell), keys, mid, *final(shell), more));
    assert(actions::moves(keys) == step);
    assert(mid == old(shell).list);
    let id = rows[k].id;
    lemma_selected(mid, k, id);
    assert(more == shell::page_asked(mid));
    assert(final(out)@.last() == more[0]);
}

/// Where nothing is selected, the first key leads to the first row.
pub proof fn the_first_key_leads_to_the_first_row(
    shell: &mut Shell,
    keys: Keys,
    out: &mut Vec<Request>,
    step: int,
)
    requires
        call_ensures(Shell::keyboard, (shell, keys, out), ()),
        one_move(keys, step),
        old(shell).list.selected is None,
        on_screen(old(shell).list).len() > 0,
    ensures
        final(shell).list.selected == Some(on_screen(old(shell).list)[0].id),
        final(out)@.len() > old(out)@.len(),
        final(out)@[old(out)@.len() as int] == (Request::Open {
            id: on_screen(old(shell).list)[0].id,
            remote_images: false,
        }),
{
    let (mid, more) = choose|mid: List, more: Seq<Request>| #[trigger]
        actions::keyed(*old(shell), keys, mid, *final(shell), more) && final(out)@ == old(out)@
            + more;
    assert(actions::keyed(*old(shell), keys, mid, *final(shell), more));
    assert(actions::moves(keys) == step);
    assert(mid == old(shell).list);
    let id = on_screen(mid)[0].id;
    let asks = actions::opening_asks(Shell { list: mid, ..*old(shell) }, id, false);
    assert(more == asks);
    assert(final(out)@[old(out)@.len() as int] == asks[0]);
}

/// The key that opens reads the selected message again, with the images that were shown; without a
/// key nothing moves; and a way down undone by a way up moves nothing either.
pub proof fn a_key_does_what_it_says_and_no_more(
    opened: &mut Shell,
    a: &mut Vec<Request>,
    open: Keys,
    id: i64,
    idle: &mut Shell,
    b: &mut Vec<Request>,
    none: Keys,
)
    requires
        call_ensures(Shell::keyboard, (opened, open, a), ()),
        open.open && !open.down && !open.up && !open.page_down && !open.page_up && !open.search
            && !open.escape,
        old(opened).list.selected == Some(id),
        call_ensures(Shell::keyboard, (idle, none, b), ()),
        !none.open && none.down == none.up && none.page_down == none.page_up && !none.search
            && !none.escape,
    ensures
        final(opened).list.selected == Some(id),
        final(a)@.len() > old(a)@.len(),
        final(a)@[old(a)@.len() as int] == (Request::Open {
            id,
            remote_images: old(opened).reader.images_shown,
        }),
        final(opened).reader.images_shown == old(opened).reader.images_shown,
        final(opened).reader.opening && final(opened).reader.open_error is None,
        final(opened).writing == old(opened).writing,
        *final(idle) == *old(idle),
        final(b)@ == old(b)@,
{
    let (mid, more) = choose|mid: List, more: Seq<Request>| #[trigger]
        actions::keyed(*old(opened), open, mid, *final(opened), more) && final(a)@ == old(a)@
            + more;
    assert(actions::keyed(*old(opened), open, mid, *final(opened), more));
    assert(mid == old(opened).list);
    let asks = actions::opening_asks(*old(opened), id, old(opened).reader.images_shown);
    assert(more == asks);
    assert(final(a)@[old(a)@.len() as int] == asks[0]);
    let (same, nothing) = choose|mid: List, more: Seq<Request>| #[trigger]
        actions::keyed(*old(idle), none, mid, *final(idle), more) && final(b)@ == old(b)@ + more;
    assert(actions::keyed(*old(idle), none, same, *final(idle), nothing));
    assert(same == old(idle).list);
    assert(nothing == Seq::<Request>::empty());
    assert(final(b)@ == old(b)@);
}

/// The key of the search gives it the focus; the way out puts the results away, and the rows of the
/// folder are there again; where nothing was found it leaves everything as it is.
pub proof fn the_search_is_reached_and_left_by_key(
    reached: &mut Shell,
    a: &mut Vec<Request>,
    search: Keys,
    left: &mut Shell,
    b: &mut Vec<Request>,
    escape: Keys,
)
    requires
        call_ensures(Shell::keyboard, (reached, search, a), ()),
        search.search && !search.open && !search.down && !search.up && !search.page_down
            && !search.page_up && !search.escape,
        call_ensures(Shell::keyboard, (left, escape, b), ()),
        escape.escape && !escape.open && !escape.down && !escape.up && !escape.page_down
            && !escape.page_up && !escape.search,
    ensures
        final(reached).list.focus_search,
        on_screen(final(reached).list) == on_screen(old(reached).list),
        final(reached).reader == old(reached).reader,
        final(a)@ == old(a)@,
        final(left).list.results is None,
        on_screen(final(left).list) == old(left).list.rows@,
        old(left).list.results is None ==> *final(left) == *old(left),
        final(left).reader == old(left).reader,
        final(left).writing == old(left).writing,
        final(b)@ == old(b)@,
{
    let (mid, more) = choose|mid: List, more: Seq<Request>| #[trigger]
        actions::keyed(*old(reached), search, mid, *final(reached), more) && final(a)@ == old(a)@
            + more;
    assert(actions::keyed(*old(reached), search, mid, *final(reached), more));
    assert(more == Seq::<Request>::empty());
    assert(final(a)@ == old(a)@);
    let (then, nothing) = choose|mid: List, more: Seq<Request>| #[trigger]
        actions::keyed(*old(left), escape, mid, *final(left), more) && final(b)@ == old(b)@ + more;
    assert(actions::keyed(*old(left), escape, then, *final(left), nothing));
    assert(nothing == Seq::<Request>::empty());
    assert(final(b)@ == old(b)@);
}

// ---------------------------------------------------------------------------------------------
// The list
// ---------------------------------------------------------------------------------------------

/// The rows that are shown are those of the search where there was one, else those of the folder,
/// and the list makes room for all of them: those found, or as many as the folder holds.
pub proof fn the_list_makes_room_for_its_rows(list: &List, rows: &Vec<Row>, room: usize, k: int)
    requires
        call_ensures(List::visible, (list,), rows),
        call_ensures(List::total, (list,), room),
    ensures
        rows@ == on_screen(*list),
        list.results matches Some(found) ==> room == found@.len(),
        list.results is None && list.current is None ==> room == 0,
        list.results is None && 0 <= k < list.folders@.len() && list.current == Some(
            list.folders@[k].id,
        ) && list.folders@[k].total <= usize::MAX && (forall|j: int|
            0 <= j < k ==> (#[trigger] list.folders@[j]).id != list.folders@[k].id) ==> room
            == list.folders@[k].total,
{
    if list.results is None && 0 <= k < list.folders@.len() && list.current == Some(
        list.folders@[k].id,
    ) && (forall|j: int|
        0 <= j < k ==> (#[trigger] list.folders@[j]).id != list.folders@[k].id) {
        lemma_open(*list, k);
    }
}

proof fn lemma_open(list: List, k: int)
    requires
        0 <= k < list.folders@.len(),
        list.current == Some(list.folders@[k].id),
        forall|j: int| 0 <= j < k ==> (#[trigger] list.folders@[j]).id != list.folders@[k].id,
    ensures
        list.opened() == Some(list.folders@[k]),
{
    match list.current {
        Some(id) => {
            assert(shell::is_folder(list.folders@, k, id));
            let i = choose|i: int| shell::is_folder(list.folders@, i, id);
            assert(shell::is_folder(list.folders@, i, id));
            if i < k {
                assert(list.folders@[i].id != id);
            } else if k < i {
                assert(list.folders@[k].id != id);
            }
        },
        None => {},
    }
}

/// The folder that is open is the one of its number.
pub proof fn the_open_folder_has_its_number(list: &List, found: Option<&Folder>)
    requires
        call_ensures(List::folder, (list,), found),
    ensures
        found matches Some(folder) ==> list.current == Some(folder.id) && list.folders@.contains(
            *folder,
        ),
        found is None ==> list.current is None || forall|i: int|
            0 <= i < list.folders@.len() ==> Some((#[trigger] list.folders@[i]).id) != list.current,
{
    match list.current {
        Some(id) => {
            if exists|i: int| shell::is_folder(list.folders@, i, id) {
                let i = choose|i: int| shell::is_folder(list.folders@, i, id);
                assert(shell::is_folder(list.folders@, i, id));
            } else {
                assert forall|i: int| 0 <= i < list.folders@.len() implies (
                #[trigger] list.folders@[i]).id != id by {
                    lemma_no_folder(list.folders@, id, i);
                }
            }
        },
        None => {},
    }
}

proof fn lemma_no_folder(folders: Seq<Folder>, id: i64, i: int)
    requires
        !exists|k: int| shell::is_folder(folders, k, id),
        0 <= i < folders.len(),
    ensures
        folders[i].id != id,
    decreases i,
{
    assert forall|j: int| 0 <= j < i implies (#[trigger] folders[j]).id != id by {
        lemma_no_folder(folders, id, j);
    }
    assert(!shell::is_folder(folders, i, id));
}

/// What is asked for at the start: the rows first, then everything that the window shows, once each.
pub proof fn the_rows_are_asked_for_first(asks: Vec<Request>)
    requires
        call_ensures(shell::first_requests, (), asks),
    ensures
        asks@.len() == 6,
        asks@[0] == (Request::Bootstrap { limit: 100 }),
        asks@.contains(Request::Hello),
        asks@.contains(Request::Accounts),
        asks@.contains(Request::Outbox),
        asks@.contains(Request::Drafts),
        asks@.contains(Request::Sources),
{
    assert(asks@[1] == Request::Sources);
    assert(asks@[2] == Request::Hello);
    assert(asks@[3] == Request::Accounts);
    assert(asks@[4] == Request::Outbox);
    assert(asks@[5] == Request::Drafts);
}

// ---------------------------------------------------------------------------------------------
// The notices and the cache
// ---------------------------------------------------------------------------------------------

/// A sentence that is put away takes its button along, and hides no outage.
pub proof fn a_sentence_is_put_away_with_its_button(shell: &mut Shell)
    requires
        call_ensures(Shell::dismiss_status, (shell,), ()),
    ensures
        final(shell).notices.status is None,
        final(shell).notices.cancellable is None,
        final(shell).notices.offline == old(shell).notices.offline,
        final(shell).writing == old(shell).writing,
        final(shell).list == old(shell).list,
        final(shell).panels == old(shell).panels,
{
}

/// A cache that was thrown away is not written again, whatever is shown afterwards; one that could
/// not be is kept on being written, and why is said.
pub proof fn a_cache_that_was_thrown_away_stays_away(
    gone: &mut Shell,
    path: String,
    later: &mut Shell,
    now: u64,
    kept: &mut Shell,
    why: String,
)
    requires
        call_ensures(Shell::purged, (gone, Purge::Done(path)), ()),
        old(later).cache == final(gone).cache,
        call_ensures(Shell::save_cache, (later, now), ()),
        call_ensures(Shell::purged, (kept, Purge::Failed(why)), ()),
    ensures
        final(gone).cache.pending is None,
        final(later).cache.pending is None,
        final(gone).notices.status matches Some(said) && text::occurs(path@, said@),
        final(gone).list == old(gone).list,
        final(kept).cache == old(kept).cache,
        final(kept).notices.status matches Some(said) && text::occurs(why@, said@),
{
    let a = final(gone).notices.status->0@;
    let at = "cache effacé : "@.len() as int;
    assert(a.subrange(at, at + path@.len()) == path@);
    let b = final(kept).notices.status->0@;
    let from = "cache non effacé : "@.len() as int;
    assert(b.subrange(from, from + why@.len()) == why@);
}

} // verus!
