//! A list to measure scrolling on: what it shows, and the run that measures it.
use crate::bench::Bench;
use crate::dates;
use crate::dto::{Folder, Row};
use crate::text;
use crate::trial;
use vstd::prelude::*;
use vstd::string::*;

verus! {

/// The run that a word asks for: only two are known here.
pub fn bench(word: Option<&str>) -> (r: Bench)
    ensures
        r == match word {
            Some(word) => if word@ == "startup"@ {
                Bench::Startup
            } else if word@ == "scroll"@ {
                Bench::Scroll
            } else {
                Bench::Off
            },
            None => Bench::Off,
        },
{
    match word {
        Some(word) => if text::same(word, "startup") {
            Bench::Startup
        } else if text::same(word, "scroll") {
            Bench::Scroll
        } else {
            Bench::Off
        },
        None => Bench::Off,
    }
}

/// The folder that is measured on: the biggest.
pub fn folder(folders: &Vec<Folder>) -> (r: Result<i64, &'static str>)
    ensures
        match r {
            Ok(id) => trial::biggest(folders@) == Some(id) && folders@.len() > 0,
            Err(why) => folders@.len() == 0 && why@ == "aucun dossier dans ce store"@,
        },
{
    match trial::biggest_folder(folders) {
        Some(id) => Ok(id),
        None => Err("aucun dossier dans ce store"),
    }
}

/// What follows a page of rows.
#[derive(Debug, Clone, Copy, PartialEq, Eq, Structural)]
pub enum Load {
    /// Nothing came: all is there.
    Over,
    /// Rows came, and they are the last.
    Last,
    /// Rows came, and the next page is asked for.
    More,
}

/// What follows a page of rows: it ends the loading where it is empty, or where none follows it.
pub fn after_page(rows: usize, next: bool) -> (r: Load)
    ensures
        r == if rows == 0 {
            Load::Over
        } else if next {
            Load::More
        } else {
            Load::Last
        },
{
    if rows == 0 {
        Load::Over
    } else if next {
        Load::More
    } else {
        Load::Last
    }
}

/// The last part of a path.
pub open spec fn last_part(path: Seq<char>) -> Seq<char> {
    text::split(path, '/').last()
}

/// The label of a folder: the last part of its path, and what is unread in it.
pub fn folder_label(path: &str, unread: u64) -> (r: String)
    ensures
        r@ == if unread > 0 {
            last_part(path@) + "  ("@ + text::dec(unread as nat) + ")"@
        } else {
            last_part(path@)
        },
{
    let parts = text::split_at(path, '/');
    let last = &parts[parts.len() - 1];
    assert(text::texts(parts@).last() == last@);
    if unread > 0 {
        let mut out = last.clone();
        out.append("  (");
        out.append(text::decimal(unread).as_str());
        out.append(")");
        out
    } else {
        last.clone()
    }
}

/// What is said of the rows that are there.
pub fn loaded_label(loaded: usize, total: u64) -> (r: String)
    ensures
        r@ == text::dec(loaded as nat) + " chargés sur "@ + text::dec(total as nat),
{
    let mut out = text::decimal_usize(loaded);
    out.append(" chargés sur ");
    out.append(text::decimal(total).as_str());
    out
}

/// Who a row is from: the name, and the address where there is none.
pub fn who(row: &Row) -> (r: &str)
    ensures
        r@ == match row.from_name {
            Some(name) => if text::trimmed(name@).len() > 0 {
                name@
            } else {
                row.from@
            },
            None => row.from@,
        },
{
    match &row.from_name {
        Some(name) => if text::trim(name.as_str()).as_str().unicode_len() > 0 {
            name.as_str()
        } else {
            row.from.as_str()
        },
        None => row.from.as_str(),
    }
}

/// A rough date: years of three hundred and sixty-five days, months of thirty-one.
pub open spec fn rough_date(unix: int) -> Seq<char> {
    if unix <= 0 {
        "—"@
    } else {
        let days = unix / 86400;
        let day = days % 365;
        dates::two_digits(day % 31 + 1) + "/"@ + dates::two_digits(day / 31 + 1) + "/"@ + text::dec(
            ((1970 + days / 365) % 100) as nat,
        )
    }
}

/// A rough date: what is measured is frames, not calendars.
pub fn short_date(unix: i64) -> (r: String)
    ensures
        r@ == rough_date(unix as int),
{
    if unix <= 0 {
        return "—".to_owned();
    }
    let days: i64 = unix / 86400;
    let day: i64 = days % 365;
    let years: i64 = 1970 + days / 365;
    let first: u64 = (day % 31 + 1) as u64;
    let second: u64 = (day / 31 + 1) as u64;
    let mut out = text::pad_left(text::decimal(first).as_str(), '0', 2);
    out.append("/");
    out.append(text::pad_left(text::decimal(second).as_str(), '0', 2).as_str());
    out.append("/");
    out.append(text::decimal((years % 100) as u64).as_str());
    out
}

// ---------------------------------------------------------------------------------------------
// The run
// ---------------------------------------------------------------------------------------------

/// How many frames are counted at rest.
pub const IDLE_FRAMES: usize = 120;

/// How many frames are counted while scrolling.
pub const SCROLL_FRAMES: usize = 600;

/// Where the run stands.
#[derive(Debug, Clone, Copy, PartialEq, Eq, Structural)]
pub enum Phase {
    /// The folder is not all there yet.
    Waiting,
    Idle,
    Scrolling,
    Done,
}

/// What is done after a frame.
#[derive(Debug, Clone, Copy, PartialEq, Eq, Structural)]
pub enum Step {
    Wait,
    /// The folder is all there.
    Loaded,
    /// The frame is counted among those at rest.
    CountIdle,
    /// The frame is counted, and the list goes on by a step.
    CountScroll,
    /// The frame is counted, the numbers are given and the window closes.
    Report,
}

/// The run: where it stands, and how many frames it has timed in each regime.
#[derive(Debug, Clone, Copy, PartialEq, Eq, Structural)]
pub struct Scroll {
    pub phase: Phase,
    pub idle: usize,
    pub scrolling: usize,
}

/// Whether a run can go on.
pub open spec fn sound(it: Scroll) -> bool {
    &&& it.idle <= IDLE_FRAMES
    &&& it.scrolling <= SCROLL_FRAMES
    &&& it.phase == Phase::Idle ==> it.idle < IDLE_FRAMES
    &&& it.phase == Phase::Scrolling ==> it.scrolling < SCROLL_FRAMES
    &&& (it.phase == Phase::Waiting || it.phase == Phase::Idle) ==> it.scrolling == 0
    &&& it.phase == Phase::Waiting ==> it.idle == 0
    &&& (it.phase == Phase::Scrolling || it.phase == Phase::Done) ==> it.idle == IDLE_FRAMES
    &&& it.phase == Phase::Done ==> it.scrolling == SCROLL_FRAMES
}

/// A run that has not begun.
pub open spec fn fresh() -> Scroll {
    Scroll { phase: Phase::Waiting, idle: 0, scrolling: 0 }
}

/// What a frame does to a run. A frame that could not be timed is not counted.
pub open spec fn framed(pre: Scroll, timed: bool, done: bool) -> (Scroll, Step) {
    match pre.phase {
        Phase::Waiting => if done {
            (Scroll { phase: Phase::Idle, ..pre }, Step::Loaded)
        } else {
            (pre, Step::Wait)
        },
        Phase::Idle => {
            let idle = if timed {
                pre.idle + 1
            } else {
                pre.idle as int
            };
            let phase = if idle >= IDLE_FRAMES {
                Phase::Scrolling
            } else {
                Phase::Idle
            };
            (Scroll { phase, idle: idle as usize, ..pre }, Step::CountIdle)
        },
        Phase::Scrolling => {
            let scrolling = if timed {
                pre.scrolling + 1
            } else {
                pre.scrolling as int
            };
            if scrolling >= SCROLL_FRAMES {
                (
                    Scroll { phase: Phase::Done, scrolling: scrolling as usize, ..pre },
                    Step::Report,
                )
            } else {
                (Scroll { scrolling: scrolling as usize, ..pre }, Step::CountScroll)
            }
        },
        Phase::Done => (pre, Step::Wait),
    }
}

impl Scroll {
    /// A run that has not begun.
    pub fn new() -> (r: Scroll)
        ensures
            r == fresh(),
            sound(r),
    {
        Scroll { phase: Phase::Waiting, idle: 0, scrolling: 0 }
    }

    /// A frame was drawn: `timed` says whether its time is known, `done` whether the folder is all
    /// there.
    pub fn advance(&mut self, timed: bool, done: bool) -> (step: Step)
        requires
            sound(*old(self)),
        ensures
            sound(*final(self)),
            (*final(self), step) == framed(*old(self), timed, done),
    {
        match self.phase {
            Phase::Waiting => {
                if done {
                    self.phase = Phase::Idle;
                    Step::Loaded
                } else {
                    Step::Wait
                }
            },
            Phase::Idle => {
                if timed {
                    self.idle = self.idle + 1;
                }
                if self.idle >= IDLE_FRAMES {
                    self.phase = Phase::Scrolling;
                }
                Step::CountIdle
            },
            Phase::Scrolling => {
                if timed {
                    self.scrolling = self.scrolling + 1;
                }
                if self.scrolling >= SCROLL_FRAMES {
                    self.phase = Phase::Done;
                    Step::Report
                } else {
                    Step::CountScroll
                }
            },
            Phase::Done => Step::Wait,
        }
    }
}

} // verus!
