//! The decisions of one run: which entries of the walk are candidates, what
//! an answer to the delete prompt leads to, and when the run stops.
//!
//! A run is a `Session` fed with events by the caller, which walks the
//! directory, asks the user and deletes files. Each event gives back the
//! action that the caller performs next.
use vstd::prelude::*;
use crate::args::{parse_depth, depth_of_text};

verus! {

/// Bytes in one mebibyte.
pub const MEBIBYTE: u64 = 1048576;

/// Files of this many bytes or more are candidates for deletion.
pub const SIZE_THRESHOLD: u64 = 50 * MEBIBYTE;

/// Whether an entry found at `depth` below the root, whose size could be
/// read as `size` bytes (`None`: it could not be read), is to be offered
/// for deletion in a scan bounded by `max_depth`.
pub open spec fn candidate(max_depth: usize, depth: usize, size: Option<u64>) -> bool {
    depth <= max_depth && size is Some && size->0 >= SIZE_THRESHOLD
}

/// Decides whether an entry is offered for deletion.
pub fn is_candidate(max_depth: usize, depth: usize, size: Option<u64>) -> (r: bool)
    ensures
        r == candidate(max_depth, depth, size),
{
    match size {
        Some(n) => depth <= max_depth && n >= SIZE_THRESHOLD,
        None => false,
    }
}

/// Where a run stands.
#[derive(Clone, Copy, Debug, PartialEq, Eq, Structural)]
pub enum Phase {
    /// Waiting for the next entry of the walk.
    Scanning,
    /// The user was asked about a candidate; waiting for the answer.
    Asking,
    /// The user agreed; waiting for the outcome of the deletion.
    Deleting,
    /// The prompt failed: the run is over.
    Halted,
}

/// What came of the delete prompt.
#[derive(Clone, Copy, Debug, PartialEq, Eq, Structural)]
pub enum Reply {
    Yes,
    /// An explicit no, or the default answer.
    No,
    /// The prompt itself failed (its input was closed, for one).
    Failed,
}

/// What the caller reports to the session.
#[derive(Clone, Copy, Debug, PartialEq, Eq, Structural)]
pub enum Event {
    /// The walk produced an entry `depth` levels below the root; `size` is
    /// its length in bytes, or `None` where it could not be read.
    Entry { depth: usize, size: Option<u64> },
    /// The user answered the prompt.
    Answered(Reply),
    /// The file was deleted (`true`) or could not be (`false`).
    Deleted(bool),
}

/// What the caller does next.
#[derive(Clone, Copy, Debug, PartialEq, Eq, Structural)]
pub enum Action {
    /// Go on with the next entry.
    Next,
    /// Show the entry's path and size and ask whether to delete it.
    Ask,
    /// Delete the file just asked about.
    Delete,
    /// Report that the deletion failed, then go on with the next entry.
    ReportDeleteFailure,
    /// Report the prompt's error and end the run.
    Stop,
    /// The event does not fit where the run stands; nothing changes.
    Ignore,
}

/// The state of one run.
#[derive(Clone, Copy, Debug, PartialEq, Eq, Structural)]
pub struct Session {
    /// Deepest level below the root that the walk enters (the root is 0).
    pub max_depth: usize,
    pub phase: Phase,
}

/// Why a run does not start.
#[derive(Clone, Copy, Debug, PartialEq, Eq, Structural)]
pub enum StartError {
    /// The path given is not a directory.
    NotADirectory,
}

/// One step of a run: the next state and the action for `e` in state `s`.
pub open spec fn step(s: Session, e: Event) -> (Session, Action) {
    let with = |p: Phase| Session { max_depth: s.max_depth, phase: p };
    match s.phase {
        Phase::Halted => (s, Action::Stop),
        Phase::Scanning => match e {
            Event::Entry { depth, size } => if candidate(s.max_depth, depth, size) {
                (with(Phase::Asking), Action::Ask)
            } else {
                (s, Action::Next)
            },
            _ => (s, Action::Ignore),
        },
        Phase::Asking => match e {
            Event::Answered(Reply::Yes) => (with(Phase::Deleting), Action::Delete),
            Event::Answered(Reply::No) => (with(Phase::Scanning), Action::Next),
            Event::Answered(Reply::Failed) => (with(Phase::Halted), Action::Stop),
            _ => (s, Action::Ignore),
        },
        Phase::Deleting => match e {
            Event::Deleted(true) => (with(Phase::Scanning), Action::Next),
            Event::Deleted(false) => (with(Phase::Scanning), Action::ReportDeleteFailure),
            _ => (s, Action::Ignore),
        },
    }
}

/// The state after feeding `events` to `s` in order, and the actions given.
pub open spec fn run(s: Session, events: Seq<Event>) -> (Session, Seq<Action>)
    decreases events.len(),
{
    if events.len() == 0 {
        (s, Seq::empty())
    } else {
        let (next, a) = step(s, events[0]);
        let (last, rest) = run(next, events.drop_first());
        (last, seq![a] + rest)
    }
}

/// A run gives one action per event and never changes its depth bound.
pub proof fn lemma_run_shape(s: Session, events: Seq<Event>)
    ensures
        run(s, events).1.len() == events.len(),
        run(s, events).0.max_depth == s.max_depth,
    decreases events.len(),
{
    if events.len() > 0 {
        lemma_run_shape(step(s, events[0]).0, events.drop_first());
    }
}

/// The actions of a run, from the second one on, are those of the run from
/// the state after the first event on the remaining events.
proof fn lemma_run_tail(s: Session, events: Seq<Event>, i: int)
    requires
        0 < i < events.len(),
    ensures
        run(s, events).1[i] == run(step(s, events[0]).0, events.drop_first()).1[i - 1],
        events[i] == events.drop_first()[i - 1],
{
    lemma_run_shape(step(s, events[0]).0, events.drop_first());
}

/// Every entry that a run asks about lies within the depth bound and is at
/// least as large as the threshold.
pub proof fn lemma_asks_only_candidates(s: Session, events: Seq<Event>)
    ensures
        forall|i: int|
            0 <= i < events.len() && #[trigger] run(s, events).1[i] == Action::Ask ==> {
                &&& events[i] is Entry
                &&& events[i]->depth <= s.max_depth
                &&& events[i]->size is Some
                &&& events[i]->size->0 >= SIZE_THRESHOLD
            },
    decreases events.len(),
{
    if events.len() > 0 {
        let next = step(s, events[0]).0;
        lemma_asks_only_candidates(next, events.drop_first());
        assert forall|i: int|
            0 <= i < events.len() && #[trigger] run(s, events).1[i] == Action::Ask implies {
                &&& events[i] is Entry
                &&& events[i]->depth <= s.max_depth
                &&& events[i]->size is Some
                &&& events[i]->size->0 >= SIZE_THRESHOLD
            } by {
            if i > 0 {
                lemma_run_tail(s, events, i);
                assert(run(next, events.drop_first()).1[i - 1] == Action::Ask);
            }
        }
    }
}

/// A run deletes only on an explicit yes: declining never deletes.
pub proof fn lemma_deletes_only_on_yes(s: Session, events: Seq<Event>)
    ensures
        forall|i: int|
            0 <= i < events.len() && #[trigger] run(s, events).1[i] == Action::Delete
                ==> events[i] == Event::Answered(Reply::Yes),
    decreases events.len(),
{
    if events.len() > 0 {
        let next = step(s, events[0]).0;
        lemma_deletes_only_on_yes(next, events.drop_first());
        assert forall|i: int|
            0 <= i < events.len() && #[trigger] run(s, events).1[i] == Action::Delete
                implies events[i] == Event::Answered(Reply::Yes) by {
            if i > 0 {
                lemma_run_tail(s, events, i);
                assert(run(next, events.drop_first()).1[i - 1] == Action::Delete);
            }
        }
    }
}

/// A yes right after a prompt leads to the deletion of the file asked about.
pub proof fn lemma_yes_deletes(s: Session, events: Seq<Event>, i: int)
    requires
        0 <= i,
        i + 1 < events.len(),
        run(s, events).1[i] == Action::Ask,
        events[i + 1] == Event::Answered(Reply::Yes),
    ensures
        run(s, events).1[i + 1] == Action::Delete,
    decreases events.len(),
{
    let next = step(s, events[0]).0;
    if i > 0 {
        lemma_run_tail(s, events, i);
        lemma_run_tail(s, events, i + 1);
        lemma_yes_deletes(next, events.drop_first(), i - 1);
    } else {
        lemma_run_tail(s, events, 1);
        assert(next.phase == Phase::Asking);
    }
}

/// A run that has halted stays halted and asks nothing more.
pub proof fn lemma_halted_stays(s: Session, events: Seq<Event>)
    requires
        s.phase == Phase::Halted,
    ensures
        run(s, events).0.phase == Phase::Halted,
        forall|i: int| 0 <= i < events.len() ==> #[trigger] run(s, events).1[i] == Action::Stop,
    decreases events.len(),
{
    if events.len() > 0 {
        lemma_halted_stays(s, events.drop_first());
        assert forall|i: int| 0 <= i < events.len() implies #[trigger] run(s, events).1[i]
            == Action::Stop by {
            if i > 0 {
                lemma_run_tail(s, events, i);
            }
        }
    }
}

/// A failed prompt ends the run: from that event on every action is `Stop`,
/// so no entry is asked about any more.
pub proof fn lemma_failed_prompt_stops(s: Session, events: Seq<Event>, i: int)
    requires
        0 <= i,
        i + 1 < events.len(),
        run(s, events).1[i] == Action::Ask,
        events[i + 1] == Event::Answered(Reply::Failed),
    ensures
        forall|j: int| i + 1 <= j < events.len() ==> #[trigger] run(s, events).1[j] == Action::Stop,
    decreases events.len(),
{
    let next = step(s, events[0]).0;
    let tail = events.drop_first();
    lemma_run_shape(next, tail);
    if i > 0 {
        lemma_run_tail(s, events, i);
        lemma_failed_prompt_stops(next, tail, i - 1);
        assert forall|j: int| i + 1 <= j < events.len() implies #[trigger] run(s, events).1[j]
            == Action::Stop by {
            lemma_run_tail(s, events, j);
        }
    } else {
        assert(next.phase == Phase::Asking);
        let after = step(next, tail[0]).0;
        assert(after.phase == Phase::Halted);
        lemma_halted_stays(after, tail.drop_first());
        assert forall|j: int| 1 <= j < events.len() implies #[trigger] run(s, events).1[j]
            == Action::Stop by {
            lemma_run_tail(s, events, j);
            if j > 1 {
                lemma_run_tail(next, tail, j - 1);
            }
        }
    }
}

impl Session {
    /// Starts a run on a root that is a directory or not, with the depth
    /// argument `depth_text`. A root that is not a directory ends the run
    /// before any walk.
    pub fn start(root_is_dir: bool, depth_text: &str) -> (r: Result<Session, StartError>)
        ensures
            !root_is_dir ==> r == Err::<Session, StartError>(StartError::NotADirectory),
            root_is_dir ==> r is Ok && r->Ok_0.phase == Phase::Scanning
                && r->Ok_0.max_depth as nat == depth_of_text(depth_text@),
    {
        if !root_is_dir {
            return Err(StartError::NotADirectory);
        }
        Ok(Session { max_depth: parse_depth(depth_text), phase: Phase::Scanning })
    }

    /// Feeds one event to the run and gives the action to perform.
    pub fn handle(&mut self, e: Event) -> (r: Action)
        ensures
            (*final(self), r) == step(*old(self), e),
            r == Action::Ask ==> e is Entry && candidate(old(self).max_depth, e->depth, e->size),
            r == Action::Delete ==> e == Event::Answered(Reply::Yes),
            old(self).phase == Phase::Asking && e == Event::Answered(Reply::Yes)
                ==> r == Action::Delete,
            old(self).phase == Phase::Asking && e == Event::Answered(Reply::Failed)
                ==> r == Action::Stop && final(self).phase == Phase::Halted,
    {
        let r = match self.phase {
            Phase::Halted => Action::Stop,
            Phase::Scanning => match e {
                Event::Entry { depth, size } => if is_candidate(self.max_depth, depth, size) {
                    self.phase = Phase::Asking;
                    Action::Ask
                } else {
                    Action::Next
                },
                _ => Action::Ignore,
            },
            Phase::Asking => match e {
                Event::Answered(Reply::Yes) => {
                    self.phase = Phase::Deleting;
                    Action::Delete
                },
                Event::Answered(Reply::No) => {
                    self.phase = Phase::Scanning;
                    Action::Next
                },
                Event::Answered(Reply::Failed) => {
                    self.phase = Phase::Halted;
                    Action::Stop
                },
                _ => Action::Ignore,
            },
            Phase::Deleting => match e {
                Event::Deleted(true) => {
                    self.phase = Phase::Scanning;
                    Action::Next
                },
                Event::Deleted(false) => {
                    self.phase = Phase::Scanning;
                    Action::ReportDeleteFailure
                },
                _ => Action::Ignore,
            },
        };
        r
    }
}

} // verus!
