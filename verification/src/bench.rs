//! The measuring runs of the interface: which one is asked for, and what it has counted.
use crate::text;
use vstd::prelude::*;
use vstd::string::*;

verus! {

/// What a run is for.
#[derive(Debug, Clone, Copy, PartialEq, Eq, Structural)]
pub enum Bench {
    /// Until the first rows, then close.
    Startup,
    /// Load the biggest folder, scroll through it, close.
    Scroll,
    /// Load, wait for the service to fall, check that the list still scrolls and that actions
    /// fail cleanly.
    Offline,
    /// Open messages from the list and count the time until they are drawn.
    Open,
    /// Type in the signature editor.
    Signature,
    /// An ordinary run: stay open.
    Off,
}

/// The run that a word asks for; an ordinary one where it asks for nothing known.
pub open spec fn bench_of(word: Option<Seq<char>>) -> Bench {
    match word {
        Some(w) => if w == "startup"@ {
            Bench::Startup
        } else if w == "scroll"@ {
            Bench::Scroll
        } else if w == "offline"@ {
            Bench::Offline
        } else if w == "open"@ {
            Bench::Open
        } else if w == "signature"@ {
            Bench::Signature
        } else {
            Bench::Off
        },
        None => Bench::Off,
    }
}

impl Bench {
    /// The run that a word asks for; an ordinary one where it asks for nothing known.
    pub fn named(word: Option<&str>) -> (r: Bench)
        ensures
            r == bench_of(text::opt_str(word)),
    {
        match word {
            None => Bench::Off,
            Some(w) => if text::same(w, "startup") {
                Bench::Startup
            } else if text::same(w, "scroll") {
                Bench::Scroll
            } else if text::same(w, "offline") {
                Bench::Offline
            } else if text::same(w, "open") {
                Bench::Open
            } else if text::same(w, "signature") {
                Bench::Signature
            } else {
                Bench::Off
            },
        }
    }
}

/// Where a run stands.
#[derive(Debug, Clone, Copy, PartialEq, Eq, Structural)]
pub enum Phase {
    Waiting,
    Idle,
    Scrolling,
    /// The service is still there.
    WaitingDown,
    /// The two probes are under way.
    Probing,
    Opening,
    Typing,
    Pasting,
    AfterPaste,
    Done,
}

/// How an action tried while the service is down ended. Only a clean failure is right: the other
/// ends say that the service had not fallen, or that there was nothing to try.
#[derive(Debug, Clone, Copy, PartialEq, Eq, Structural)]
pub enum Verdict {
    Served,
    Refused,
    CleanFailure,
    NoRow,
}

impl Verdict {
    /// The word for a verdict.
    pub open spec fn word(self) -> Seq<char> {
        match self {
            Verdict::Served => "servi"@,
            Verdict::Refused => "refus"@,
            Verdict::CleanFailure => "echec_propre"@,
            Verdict::NoRow => "aucune ligne"@,
        }
    }

    /// The word for a verdict.
    pub fn as_str(self) -> (r: &'static str)
        ensures
            r@ == self.word(),
    {
        match self {
            Verdict::Served => "servi",
            Verdict::Refused => "refus",
            Verdict::CleanFailure => "echec_propre",
            Verdict::NoRow => "aucune ligne",
        }
    }
}

/// The two actions tried while the service is down.
#[derive(Debug, Clone, Copy, PartialEq, Eq, Structural)]
pub struct Probe {
    pub open: Option<Verdict>,
    pub search: Option<Verdict>,
}

/// The verdict on a failure.
pub open spec fn verdict_of(transport: bool) -> Verdict {
    if transport {
        Verdict::CleanFailure
    } else {
        Verdict::Refused
    }
}

impl Probe {
    /// The verdict on a failure.
    pub fn verdict(transport: bool) -> (r: Verdict)
        ensures
            r == verdict_of(transport),
    {
        if transport {
            Verdict::CleanFailure
        } else {
            Verdict::Refused
        }
    }

    /// Whether both probes have answered.
    pub fn complete(&self) -> (r: bool)
        ensures
            r == (self.open is Some && self.search is Some),
    {
        self.open.is_some() && self.search.is_some()
    }

    /// The word for a probe, where it has answered.
    pub fn said(verdict: Option<Verdict>) -> (r: &'static str)
        ensures
            r@ == match verdict {
                Some(v) => v.word(),
                None => "sans réponse"@,
            },
    {
        match verdict {
            Some(v) => v.as_str(),
            None => "sans réponse",
        }
    }
}

/// What a run has counted. The durations themselves are kept beside it.
#[derive(Debug, Clone, Copy, PartialEq, Eq, Structural)]
pub struct BenchState {
    pub phase: Phase,
    /// The frames measured at rest.
    pub idle: usize,
    /// The frames measured at work.
    pub scrolling: usize,
    /// The frames measured after the paste.
    pub after_paste: usize,
    /// The changes of the store heard while scrolling.
    pub changed_while_scrolling: usize,
    /// The messages drawn.
    pub opens: usize,
    /// The message that is waited for.
    pub open_target: Option<i64>,
    pub open_index: usize,
    /// The messages without a body to draw.
    pub open_empty: usize,
    /// The blocks drawn.
    pub open_blocks: usize,
    /// The frames since the message was asked for.
    pub open_waited: usize,
}

/// A run that has not begun.
pub open spec fn unstarted() -> BenchState {
    BenchState {
        phase: Phase::Waiting,
        idle: 0,
        scrolling: 0,
        after_paste: 0,
        changed_while_scrolling: 0,
        opens: 0,
        open_target: None,
        open_index: 0,
        open_empty: 0,
        open_blocks: 0,
        open_waited: 0,
    }
}

impl BenchState {
    /// A run that has not begun.
    pub fn new() -> (r: BenchState)
        ensures
            r == unstarted(),
    {
        BenchState {
            phase: Phase::Waiting,
            idle: 0,
            scrolling: 0,
            after_paste: 0,
            changed_while_scrolling: 0,
            opens: 0,
            open_target: None,
            open_index: 0,
            open_empty: 0,
            open_blocks: 0,
            open_waited: 0,
        }
    }
}

/// A count that stops at the largest number.
pub open spec fn counted(n: usize, more: int) -> usize {
    if n + more <= usize::MAX {
        (n + more) as usize
    } else {
        usize::MAX
    }
}

/// A count that stops at the largest number.
pub fn count(n: usize, more: usize) -> (r: usize)
    ensures
        r == counted(n, more as int),
{
    if more <= usize::MAX - n {
        n + more
    } else {
        usize::MAX
    }
}

} // verus!
