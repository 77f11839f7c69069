//! The measuring runs, frame by frame.
use crate::absorb;
use crate::actions;
use crate::actions::Wish;
use crate::bench;
use crate::bench::{BenchState, Phase, Probe, Verdict};
use crate::dto::Folder;
use crate::protocol::Request;
use crate::shell;
use crate::shell::{List, Shell, Trial, Writing, RESULTS};
use crate::signature;
use crate::signature::{Document, Editor};
use crate::text;
use crate::utf8;
use vstd::prelude::*;
use vstd::string::*;

verus! {

/// The frames measured at rest.
pub const IDLE_FRAMES: usize = 120;

/// The frames measured while scrolling.
pub const SCROLL_FRAMES: usize = 600;

/// How long a folder that is being filled is waited for, in milliseconds.
pub const LOAD_PATIENCE: u64 = 25000;

/// The rows that make a scroll worth measuring.
pub const MIN_SCROLL_ROWS: usize = 500;

/// The messages that are opened.
pub const OPEN_SAMPLES: usize = 30;

/// The lines of the document that is typed in.
pub const SIGNATURE_LINES: usize = 200;

/// The frames measured while typing.
pub const SIGNATURE_FRAMES: usize = 240;

/// The rows that are loaded before the service falls.
pub const OFFLINE_ROWS: usize = 1000;

/// How long the first rows are waited for, in milliseconds.
pub const STARTUP_PATIENCE: u64 = 10000;

/// What a frame of a run came to.
#[derive(Debug, Clone, Copy, PartialEq, Eq, Structural)]
pub enum Progress {
    Continue,
    /// The folder is loaded.
    Loaded,
    /// The folder is still being filled, and enough of it is loaded.
    Unfinished,
    /// The folder has too few rows: the run closes.
    TooFew,
    /// The message was drawn.
    Drawn,
    /// There was nothing of the message to draw.
    Empty,
    /// The run is over: it reports and closes.
    Report,
}

/// Whether a folder is the biggest; among equals, the last.
pub open spec fn is_biggest(folders: Seq<Folder>, i: int) -> bool {
    &&& 0 <= i < folders.len()
    &&& forall|j: int| 0 <= j <= i ==> (#[trigger] folders[j]).total <= folders[i].total
    &&& forall|j: int| i < j < folders.len() ==> (#[trigger] folders[j]).total < folders[i].total
}

/// The biggest folder, where there is one.
pub open spec fn biggest(folders: Seq<Folder>) -> Option<i64> {
    if exists|i: int| is_biggest(folders, i) {
        Some(folders[choose|i: int| is_biggest(folders, i)].id)
    } else {
        None
    }
}

/// One folder is the biggest.
pub proof fn one_folder_is_the_biggest(folders: Seq<Folder>, i: int, j: int)
    requires
        is_biggest(folders, i),
        is_biggest(folders, j),
    ensures
        i == j,
{
    if i < j {
        assert(folders[j].total < folders[i].total);
        assert(folders[i].total <= folders[j].total);
    } else if j < i {
        assert(folders[i].total < folders[j].total);
        assert(folders[j].total <= folders[i].total);
    }
}

/// The biggest folder, where there is one.
pub fn biggest_folder(folders: &Vec<Folder>) -> (r: Option<i64>)
    ensures
        r == biggest(folders@),
        r is Some <==> folders@.len() > 0,
{
    if folders.len() == 0 {
        return None;
    }
    let mut best: usize = 0;
    let mut i: usize = 1;
    while i < folders.len()
        invariant
            best < i <= folders.len(),
            forall|j: int| 0 <= j <= best ==> (#[trigger] folders@[j]).total
                <= folders@[best as int].total,
            forall|j: int| best < j < i ==> (#[trigger] folders@[j]).total
                < folders@[best as int].total,
        decreases folders.len() - i,
    {
        if folders[i].total >= folders[best].total {
            best = i;
        }
        i = i + 1;
    }
    assert(is_biggest(folders@, best as int));
    proof {
        let k = choose|k: int| is_biggest(folders@, k);
        one_folder_is_the_biggest(folders@, best as int, k);
    }
    Some(folders[best].id)
}

/// The interface with nothing changed but what its run has counted.
pub open spec fn with_state(pre: Shell, state: BenchState) -> Shell {
    Shell { trial: Trial { state, ..pre.trial }, ..pre }
}

/// What the loading of the biggest folder comes to.
#[derive(Debug, Clone, Copy, PartialEq, Eq, Structural)]
pub enum Loading {
    /// There is no folder yet.
    Nowhere,
    /// Another folder is open: this one is to be.
    Elsewhere(i64),
    /// The folder is open.
    Here,
}

/// What the loading of the biggest folder comes to.
pub open spec fn loading_of(list: List) -> Loading {
    match biggest(list.folders@) {
        None => Loading::Nowhere,
        Some(id) => if list.current == Some(id) {
            Loading::Here
        } else {
            Loading::Elsewhere(id)
        },
    }
}

fn loading(list: &List) -> (r: Loading)
    ensures
        r == loading_of(*list),
{
    match biggest_folder(&list.folders) {
        None => Loading::Nowhere,
        Some(id) => {
            let here = match list.current {
                Some(current) => current == id,
                None => false,
            };
            if here {
                Loading::Here
            } else {
                Loading::Elsewhere(id)
            }
        },
    }
}

/// Whether the interface waits for the biggest folder: it is opened, and its pages are asked for.
pub open spec fn waits(pre: Shell, post: Shell, more: Seq<Request>) -> bool {
    match loading_of(pre.list) {
        Loading::Nowhere => post == pre && more == Seq::<Request>::empty(),
        Loading::Elsewhere(id) => absorb::shows_folder(pre, id, post) && more
            == seq![shell::first_page(id)],
        Loading::Here => post == (Shell { list: shell::with_page_asked(pre.list), ..pre }) && more
            == shell::page_asked(pre.list),
    }
}

impl Shell {
    fn wait_for_rows(&mut self, out: &mut Vec<Request>)
        ensures
            exists|more: Seq<Request>| #[trigger]
                waits(*old(self), *final(self), more) && final(out)@ == old(out)@ + more,
    {
        let ghost before = out@;
        match loading(&self.list) {
            Loading::Nowhere => {
                let ghost none = Seq::<Request>::empty();
                assert(out@ == before + none);
                assert(waits(*old(self), *self, none));
            },
            Loading::Elsewhere(id) => {
                self.open_folder(id, out);
                assert(waits(*old(self), *self, seq![shell::first_page(id)]));
            },
            Loading::Here => {
                self.list.request_page(out);
                assert(waits(*old(self), *self, shell::page_asked(old(self).list)));
            },
        }
    }
}

// ---------------------------------------------------------------------------------------------
// Scrolling
// ---------------------------------------------------------------------------------------------

/// Whether the loading of a scroll is over, and how.
pub open spec fn scroll_loaded(list: List, elapsed: u64) -> Option<Progress> {
    if loading_of(list) != Loading::Here {
        None
    } else if list.exhausted {
        Some(Progress::Loaded)
    } else if elapsed > LOAD_PATIENCE && list.rows@.len() >= MIN_SCROLL_ROWS {
        Some(Progress::Unfinished)
    } else {
        None
    }
}

/// The state of a run after a frame at rest, before it goes on to another phase.
pub open spec fn rested(state: BenchState, sample: bool, next: Phase) -> BenchState {
    let idle = bench::counted(
        state.idle,
        if sample {
            1
        } else {
            0
        },
    );
    BenchState {
        idle,
        phase: if idle >= IDLE_FRAMES {
            next
        } else {
            state.phase
        },
        ..state
    }
}

/// The state of a run after a frame at work, before it goes on to another phase.
pub open spec fn worked(state: BenchState, sample: bool, frames: usize, next: Phase) -> BenchState {
    let scrolling = bench::counted(
        state.scrolling,
        if sample {
            1
        } else {
            0
        },
    );
    BenchState {
        scrolling,
        phase: if scrolling >= frames {
            next
        } else {
            state.phase
        },
        ..state
    }
}

/// Whether a frame of the scrolling run was gone through.
pub open spec fn scroll_step(
    pre: Shell,
    elapsed: u64,
    sample: bool,
    post: Shell,
    more: Seq<Request>,
    progress: Progress,
) -> bool {
    let state = pre.trial.state;
    match state.phase {
        Phase::Waiting => match scroll_loaded(pre.list, elapsed) {
            Some(end) => {
                &&& post == with_state(pre, BenchState { phase: Phase::Idle, ..state })
                &&& more == Seq::<Request>::empty()
                &&& progress == end
            },
            None => waits(pre, post, more) && progress == Progress::Continue,
        },
        Phase::Idle => {
            &&& post == with_state(pre, rested(state, sample, Phase::Scrolling))
            &&& more == Seq::<Request>::empty()
            &&& progress == Progress::Continue
        },
        Phase::Scrolling => {
            let after = worked(state, sample, SCROLL_FRAMES, Phase::Done);
            &&& post == with_state(pre, after)
            &&& more == Seq::<Request>::empty()
            &&& progress == if after.phase == Phase::Done {
                Progress::Report
            } else {
                Progress::Continue
            }
        },
        _ => post == pre && more == Seq::<Request>::empty() && progress == Progress::Continue,
    }
}

impl BenchState {
    fn rest(&mut self, sample: bool, next: Phase)
        ensures
            *final(self) == rested(*old(self), sample, next),
    {
        self.idle = bench::count(
            self.idle,
            if sample {
                1
            } else {
                0
            },
        );
        if self.idle >= IDLE_FRAMES {
            self.phase = next;
        }
    }

    fn work(&mut self, sample: bool, frames: usize, next: Phase)
        ensures
            *final(self) == worked(*old(self), sample, frames, next),
    {
        self.scrolling = bench::count(
            self.scrolling,
            if sample {
                1
            } else {
                0
            },
        );
        if self.scrolling >= frames {
            self.phase = next;
        }
    }
}

impl Shell {
    /// Goes through a frame of the scrolling run; `sample` says whether it was measured.
    pub fn advance_bench(
        &mut self,
        elapsed: u64,
        sample: bool,
        out: &mut Vec<Request>,
    ) -> (progress: Progress)
        ensures
            exists|more: Seq<Request>| #[trigger]
                scroll_step(*old(self), elapsed, sample, *final(self), more, progress)
                    && final(out)@ == old(out)@ + more,
    {
        let ghost none = Seq::<Request>::empty();
        assert(old(out)@ == old(out)@ + none);
        match self.trial.state.phase {
            Phase::Waiting => {
                let here = loading(&self.list) == Loading::Here;
                if here && self.list.exhausted {
                    self.trial.state.phase = Phase::Idle;
                    assert(scroll_step(*old(self), elapsed, sample, *self, none, Progress::Loaded));
                    return Progress::Loaded;
                }
                if here && elapsed > LOAD_PATIENCE && self.list.rows.len() >= MIN_SCROLL_ROWS {
                    self.trial.state.phase = Phase::Idle;
                    assert(scroll_step(
                        *old(self),
                        elapsed,
                        sample,
                        *self,
                        none,
                        Progress::Unfinished,
                    ));
                    return Progress::Unfinished;
                }
                self.wait_for_rows(out);
                proof {
                    let more = choose|more: Seq<Request>| #[trigger]
                        waits(*old(self), *self, more) && out@ == old(out)@ + more;
                    assert(scroll_step(
                        *old(self),
                        elapsed,
                        sample,
                        *self,
                        more,
                        Progress::Continue,
                    ));
                }
                Progress::Continue
            },
            Phase::Idle => {
                self.trial.state.rest(sample, Phase::Scrolling);
                assert(scroll_step(*old(self), elapsed, sample, *self, none, Progress::Continue));
                Progress::Continue
            },
            Phase::Scrolling => {
                self.trial.state.work(sample, SCROLL_FRAMES, Phase::Done);
                if self.trial.state.phase == Phase::Done {
                    assert(scroll_step(*old(self), elapsed, sample, *self, none, Progress::Report));
                    Progress::Report
                } else {
                    assert(scroll_step(
                        *old(self),
                        elapsed,
                        sample,
                        *self,
                        none,
                        Progress::Continue,
                    ));
                    Progress::Continue
                }
            },
            _ => {
                assert(scroll_step(*old(self), elapsed, sample, *self, none, Progress::Continue));
                Progress::Continue
            },
        }
    }
}

// ---------------------------------------------------------------------------------------------
// Opening messages
// ---------------------------------------------------------------------------------------------

/// Whether the message that was waited for is on the screen.
pub open spec fn is_drawn(pre: Shell, target: i64) -> bool {
    pre.reader.body@.len() > 0 && (pre.reader.message matches Some(message) && message.row.id
        == target)
}

/// Whether another message is to be opened.
pub open spec fn opens_another(pre: Shell) -> bool {
    let state = pre.trial.state;
    state.open_index < pre.list.rows@.len() && state.opens + state.open_empty < OPEN_SAMPLES
}

/// Whether a frame of the opening run was gone through.
pub open spec fn open_step(pre: Shell, post: Shell, more: Seq<Request>, progress: Progress) -> bool {
    let state = pre.trial.state;
    let none = Seq::<Request>::empty();
    match state.phase {
        Phase::Waiting => if loading_of(pre.list) == Loading::Here && pre.list.rows@.len()
            >= OPEN_SAMPLES {
            &&& post == with_state(pre, BenchState { phase: Phase::Opening, ..state })
            &&& more == none
            &&& progress == Progress::Continue
        } else if loading_of(pre.list) == Loading::Here && pre.list.exhausted {
            post == pre && more == none && progress == Progress::TooFew
        } else {
            waits(pre, post, more) && progress == Progress::Continue
        },
        Phase::Opening => match state.open_target {
            Some(target) => {
                let waited = BenchState {
                    open_waited: bench::counted(state.open_waited, 1),
                    ..state
                };
                &&& more == none
                &&& if pre.reader.opening {
                    post == with_state(pre, waited) && progress == Progress::Continue
                } else if is_drawn(pre, target) {
                    &&& post == with_state(
                        pre,
                        BenchState {
                            open_target: None,
                            opens: bench::counted(state.opens, 1),
                            open_blocks: bench::counted(
                                state.open_blocks,
                                pre.reader.body@.len() as int,
                            ),
                            ..waited
                        },
                    )
                    &&& progress == Progress::Drawn
                } else {
                    &&& post == with_state(
                        pre,
                        BenchState {
                            open_target: None,
                            open_empty: bench::counted(state.open_empty, 1),
                            ..waited
                        },
                    )
                    &&& progress == Progress::Empty
                }
            },
            None => if opens_another(pre) {
                let id = pre.list.rows@[state.open_index as int].id;
                &&& post == actions::opening(
                    with_state(
                        pre,
                        BenchState {
                            open_index: (state.open_index + 1) as usize,
                            open_target: Some(id),
                            open_waited: 0,
                            ..state
                        },
                    ),
                    id,
                    false,
                )
                &&& more == actions::opening_asks(pre, id, false)
                &&& progress == Progress::Continue
            } else {
                &&& post == with_state(pre, BenchState { phase: Phase::Done, ..state })
                &&& more == none
                &&& progress == Progress::Report
            },
        },
        _ => post == pre && more == none && progress == Progress::Continue,
    }
}

impl Shell {
    fn drawn(&self, target: i64) -> (r: bool)
        ensures
            r == is_drawn(*self, target),
    {
        if self.reader.body.len() == 0 {
            return false;
        }
        match &self.reader.message {
            Some(message) => message.row.id == target,
            None => false,
        }
    }

    fn another(&self) -> (r: bool)
        ensures
            r == opens_another(*self),
    {
        let state = &self.trial.state;
        state.open_index < self.list.rows.len() && state.opens < OPEN_SAMPLES && state.open_empty
            < OPEN_SAMPLES - state.opens
    }

    fn next_opening(&mut self, out: &mut Vec<Request>) -> (progress: Progress)
        requires
            old(self).trial.state.phase == Phase::Opening,
        ensures
            exists|more: Seq<Request>| #[trigger]
                open_step(*old(self), *final(self), more, progress) && final(out)@ == old(out)@
                    + more,
    {
        let ghost none = Seq::<Request>::empty();
        assert(old(out)@ == old(out)@ + none);
        match self.trial.state.open_target {
            Some(target) => {
                self.trial.state.open_waited = bench::count(self.trial.state.open_waited, 1);
                if self.reader.opening {
                    assert(open_step(*old(self), *self, none, Progress::Continue));
                    return Progress::Continue;
                }
                let drawn = self.drawn(target);
                self.trial.state.open_target = None;
                if drawn {
                    self.trial.state.opens = bench::count(self.trial.state.opens, 1);
                    self.trial.state.open_blocks = bench::count(
                        self.trial.state.open_blocks,
                        self.reader.body.len(),
                    );
                    assert(open_step(*old(self), *self, none, Progress::Drawn));
                    Progress::Drawn
                } else {
                    self.trial.state.open_empty = bench::count(self.trial.state.open_empty, 1);
                    assert(open_step(*old(self), *self, none, Progress::Empty));
                    Progress::Empty
                }
            },
            None => {
                if self.another() {
                    let index: usize = self.trial.state.open_index;
                    let count: usize = self.list.rows.len();
                    assert(index < count);
                    let id: i64 = self.list.rows[index].id;
                    self.trial.state.open_index = index + 1;
                    self.trial.state.open_target = Some(id);
                    self.trial.state.open_waited = 0;
                    self.open_message(id, false, out);
                    assert(open_step(
                        *old(self),
                        *self,
                        actions::opening_asks(*old(self), id, false),
                        Progress::Continue,
                    ));
                    Progress::Continue
                } else {
                    self.trial.state.phase = Phase::Done;
                    assert(open_step(*old(self), *self, none, Progress::Report));
                    Progress::Report
                }
            },
        }
    }

    /// Goes through a frame of the opening run.
    pub fn advance_open(&mut self, out: &mut Vec<Request>) -> (progress: Progress)
        ensures
            exists|more: Seq<Request>| #[trigger]
                open_step(*old(self), *final(self), more, progress) && final(out)@ == old(out)@
                    + more,
    {
        let ghost none = Seq::<Request>::empty();
        assert(old(out)@ == old(out)@ + none);
        match self.trial.state.phase {
            Phase::Waiting => {
                let here = loading(&self.list) == Loading::Here;
                if here && self.list.rows.len() >= OPEN_SAMPLES {
                    self.trial.state.phase = Phase::Opening;
                    assert(open_step(*old(self), *self, none, Progress::Continue));
                    return Progress::Continue;
                }
                if here && self.list.exhausted {
                    assert(open_step(*old(self), *self, none, Progress::TooFew));
                    return Progress::TooFew;
                }
                self.wait_for_rows(out);
                proof {
                    let more = choose|more: Seq<Request>| #[trigger]
                        waits(*old(self), *self, more) && out@ == old(out)@ + more;
                    assert(open_step(*old(self), *self, more, Progress::Continue));
                }
                Progress::Continue
            },
            Phase::Opening => self.next_opening(out),
            _ => {
                assert(open_step(*old(self), *self, none, Progress::Continue));
                Progress::Continue
            },
        }
    }
}

/// No message is opened twice for its rank: an opening takes the row that follows those taken
/// before, and no step goes back.
pub proof fn each_opening_takes_the_next_row(
    pre: Shell,
    post: Shell,
    more: Seq<Request>,
    progress: Progress,
)
    requires
        open_step(pre, post, more, progress),
        pre.list.rows@.len() <= usize::MAX,
    ensures
        post.trial.state.open_index >= pre.trial.state.open_index,
        pre.trial.state.open_target is None && post.trial.state.open_target is Some ==> {
            &&& post.trial.state.open_index == pre.trial.state.open_index + 1
            &&& post.trial.state.open_target == Some(
                pre.list.rows@[pre.trial.state.open_index as int].id,
            )
        },
{
}

// ---------------------------------------------------------------------------------------------
// Falling
// ---------------------------------------------------------------------------------------------

/// Whether enough rows are loaded for the service to fall.
pub open spec fn is_loaded(list: List) -> bool {
    loading_of(list) == Loading::Here && (list.rows@.len() >= OFFLINE_ROWS || list.exhausted)
}

/// What is asked for when the service has fallen: to open the first message, and to search.
pub open spec fn probe_asks(list: List) -> Seq<Wish> {
    let search = Wish::Search("facture"@);
    if list.rows@.len() > 0 {
        seq![
            Wish::Exactly(Request::Open { id: list.rows@[0].id, remote_images: false }),
            search,
        ]
    } else {
        seq![search]
    }
}

/// Whether a frame of the falling run was gone through.
pub open spec fn offline_step(pre: Shell, sample: bool, post: Shell, progress: Progress) -> bool {
    let state = pre.trial.state;
    match state.phase {
        Phase::Waiting => if is_loaded(pre.list) {
            &&& post == with_state(pre, BenchState { phase: Phase::WaitingDown, ..state })
            &&& progress == Progress::Loaded
        } else {
            &&& exists|more: Seq<Request>| #[trigger] waits(pre, post, more)
            &&& progress == Progress::Continue
        },
        Phase::WaitingDown => {
            &&& progress == Progress::Continue
            &&& if pre.notices.offline is Some {
                post == (Shell {
                    trial: Trial {
                        state: BenchState { phase: Phase::Probing, ..state },
                        probe: if pre.list.rows@.len() > 0 {
                            pre.trial.probe
                        } else {
                            Probe { open: Some(Verdict::NoRow), ..pre.trial.probe }
                        },
                        ..pre.trial
                    },
                    ..pre
                })
            } else {
                post == pre
            }
        },
        Phase::Probing => {
            &&& progress == Progress::Continue
            &&& if pre.trial.probe.open is Some && pre.trial.probe.search is Some {
                post == with_state(
                    pre,
                    BenchState { idle: 0, scrolling: 0, phase: Phase::Scrolling, ..state },
                )
            } else {
                post == pre
            }
        },
        Phase::Scrolling => {
            let after = worked(state, sample, SCROLL_FRAMES, Phase::Done);
            &&& post == with_state(pre, after)
            &&& progress == if after.phase == Phase::Done {
                Progress::Report
            } else {
                Progress::Continue
            }
        },
        _ => post == pre && progress == Progress::Continue,
    }
}

/// Whether what is asked for in a frame of the falling run is what it calls for.
pub open spec fn offline_asked(
    pre: Shell,
    post: Shell,
    before: Seq<Request>,
    after: Seq<Request>,
) -> bool {
    match pre.trial.state.phase {
        Phase::Waiting if !is_loaded(pre.list) => exists|more: Seq<Request>| #[trigger]
            waits(pre, post, more) && after == before + more,
        Phase::WaitingDown if pre.notices.offline is Some => actions::asked(
            before,
            after,
            probe_asks(pre.list),
        ),
        _ => after == before,
    }
}

impl Shell {
    fn send_probes(&mut self, out: &mut Vec<Request>)
        requires
            old(self).trial.state.phase == Phase::WaitingDown,
            old(self).notices.offline is Some,
        ensures
            offline_step(*old(self), false, *final(self), Progress::Continue),
            actions::asked(old(out)@, final(out)@, probe_asks(old(self).list)),
    {
        self.trial.state.phase = Phase::Probing;
        if self.list.rows.len() > 0 {
            out.push(Request::Open { id: self.list.rows[0].id, remote_images: false });
        } else {
            self.trial.probe.open = Some(Verdict::NoRow);
        }
        out.push(Request::Search { query: "facture".to_owned(), limit: RESULTS });
        assert(out@.take(old(out)@.len() as int) == old(out)@);
    }

    /// Goes through a frame of the falling run; `sample` says whether it was measured.
    pub fn advance_offline(&mut self, sample: bool, out: &mut Vec<Request>) -> (progress: Progress)
        ensures
            offline_step(*old(self), sample, *final(self), progress),
            offline_asked(*old(self), *final(self), old(out)@, final(out)@),
    {
        match self.trial.state.phase {
            Phase::Waiting => {
                let here = loading(&self.list) == Loading::Here;
                if here && (self.list.rows.len() >= OFFLINE_ROWS || self.list.exhausted) {
                    self.trial.state.phase = Phase::WaitingDown;
                    return Progress::Loaded;
                }
                self.wait_for_rows(out);
                Progress::Continue
            },
            Phase::WaitingDown => {
                if self.notices.offline.is_some() {
                    self.send_probes(out);
                }
                Progress::Continue
            },
            Phase::Probing => {
                if self.trial.probe.complete() {
                    self.trial.state.idle = 0;
                    self.trial.state.scrolling = 0;
                    self.trial.state.phase = Phase::Scrolling;
                }
                Progress::Continue
            },
            Phase::Scrolling => {
                self.trial.state.work(sample, SCROLL_FRAMES, Phase::Done);
                if self.trial.state.phase == Phase::Done {
                    Progress::Report
                } else {
                    Progress::Continue
                }
            },
            _ => Progress::Continue,
        }
    }
}

// ---------------------------------------------------------------------------------------------
// Typing
// ---------------------------------------------------------------------------------------------

/// Whether a frame of the typing run was gone through. In the middle of it a character is typed,
/// and at its end a document is pasted where one is given.
pub open spec fn signature_step(
    pre: Shell,
    sample: bool,
    paste: Option<Document>,
    post: Shell,
    progress: Progress,
) -> bool {
    let state = pre.trial.state;
    let edited = Shell { writing: Writing { editor: post.writing.editor, ..pre.writing }, ..pre };
    match state.phase {
        Phase::Waiting => {
            &&& post == with_state(edited, BenchState { phase: Phase::Idle, ..state })
            &&& post.writing.editor matches Some(editor)
            &&& signature::is_measured(editor, SIGNATURE_LINES)
            &&& progress == Progress::Continue
        },
        Phase::Idle => {
            &&& post == with_state(pre, rested(state, sample, Phase::Typing))
            &&& progress == Progress::Continue
        },
        Phase::Typing => {
            &&& post == with_state(
                edited,
                worked(state, sample, SIGNATURE_FRAMES, Phase::Pasting),
            )
            &&& match (pre.writing.editor, post.writing.editor) {
                (Some(before), Some(after)) => signature::typed(before, 'é', after),
                (before, after) => before is None && after is None,
            }
            &&& progress == Progress::Continue
        },
        Phase::Pasting => {
            &&& post == with_state(edited, BenchState { phase: Phase::AfterPaste, ..state })
            &&& match (pre.writing.editor, paste, post.writing.editor) {
                (Some(before), Some(document), Some(after)) => signature::pasted(
                    before,
                    document,
                    after,
                ),
                (before, None, after) => after == before,
                (before, Some(_), after) => before is None && after is None,
            }
            &&& progress == Progress::Continue
        },
        Phase::AfterPaste => {
            let after_paste = bench::counted(
                state.after_paste,
                if sample {
                    1
                } else {
                    0
                },
            );
            &&& post == with_state(
                pre,
                BenchState {
                    after_paste,
                    phase: if after_paste >= IDLE_FRAMES {
                        Phase::Done
                    } else {
                        state.phase
                    },
                    ..state
                },
            )
            &&& progress == if after_paste >= IDLE_FRAMES {
                Progress::Report
            } else {
                Progress::Continue
            }
        },
        _ => post == pre && progress == Progress::Continue,
    }
}

impl Shell {
    /// Goes through a frame of the typing run; `sample` says whether it was measured, and `paste`
    /// is the document to paste when it comes to that.
    pub fn advance_signature(&mut self, sample: bool, paste: Option<Document>) -> (progress:
        Progress)
        ensures
            signature_step(*old(self), sample, paste, *final(self), progress),
    {
        match self.trial.state.phase {
            Phase::Waiting => {
                self.writing.editor = Some(Editor::for_bench(SIGNATURE_LINES));
                self.trial.state.phase = Phase::Idle;
                Progress::Continue
            },
            Phase::Idle => {
                self.trial.state.rest(sample, Phase::Typing);
                Progress::Continue
            },
            Phase::Typing => {
                match &mut self.writing.editor {
                    Some(editor) => {
                        editor.type_in_the_middle('é');
                    },
                    None => {},
                }
                self.trial.state.work(sample, SIGNATURE_FRAMES, Phase::Pasting);
                Progress::Continue
            },
            Phase::Pasting => {
                match paste {
                    Some(document) => {
                        match &mut self.writing.editor {
                            Some(editor) => {
                                editor.paste(document);
                            },
                            None => {},
                        }
                    },
                    None => {},
                }
                self.trial.state.phase = Phase::AfterPaste;
                Progress::Continue
            },
            Phase::AfterPaste => {
                self.trial.state.after_paste = bench::count(
                    self.trial.state.after_paste,
                    if sample {
                        1
                    } else {
                        0
                    },
                );
                if self.trial.state.after_paste >= IDLE_FRAMES {
                    self.trial.state.phase = Phase::Done;
                    Progress::Report
                } else {
                    Progress::Continue
                }
            },
            _ => Progress::Continue,
        }
    }
}

/// A line of the text that is pasted: it holds a bold word, a link and running text.
pub open spec fn pasted_line() -> Seq<char> {
    "<p>Une ligne de signature avec un <b>mot en gras</b> et un <a href=\"https://exemple.fr\">lien</a>, puis du texte courant.</p>"@
}

/// The text that is pasted: just over fifty thousand bytes of lines.
pub fn pasted_html() -> (r: String)
    ensures
        r@ == text::times(
            pasted_line(),
            50000nat / utf8::byte_len(pasted_line()) + 1,
        ),
{
    let line = "<p>Une ligne de signature avec un <b>mot en gras</b> et un <a href=\"https://exemple.fr\">lien</a>, puis du texte courant.</p>";
    proof {
        reveal_strlit(
            "<p>Une ligne de signature avec un <b>mot en gras</b> et un <a href=\"https://exemple.fr\">lien</a>, puis du texte courant.</p>",
        );
        assert(line@.len() > 0);
        assert(utf8::byte_len(line@) > 0);
    }
    let size: usize = utf8::len_of(line);
    let times: usize = 50000 / size + 1;
    text::repeat_text(line, times)
}

// ---------------------------------------------------------------------------------------------
// Starting
// ---------------------------------------------------------------------------------------------

/// What a starting run does after a frame.
#[derive(Debug, Clone, Copy, PartialEq, Eq, Structural)]
pub enum Startup {
    Wait,
    /// The first rows are there: close.
    Close,
    /// No row will come: say so, and close.
    GiveUp,
}

/// What a starting run does after a frame: it closes on the first rows, and an empty store does
/// not keep it open.
pub fn startup(rows_shown: bool, elapsed: u64) -> (r: Startup)
    ensures
        r == if rows_shown {
            Startup::Close
        } else if elapsed > STARTUP_PATIENCE {
            Startup::GiveUp
        } else {
            Startup::Wait
        },
{
    if rows_shown {
        Startup::Close
    } else if elapsed > STARTUP_PATIENCE {
        Startup::GiveUp
    } else {
        Startup::Wait
    }
}

} // verus!
