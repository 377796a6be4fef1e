//! Applying the updates of one pass as a batch.
//!
//! The platform takes a batch in three kinds of call: it opens a batch, it
//! stages one update after another into it, and it commits the batch, which
//! makes every staged update visible at once. The applier decides the order
//! of these calls and keeps the record. It does not make them: the caller
//! performs the action that a step returns and reports what came of it with
//! the next event.
//!
//! An update that the platform refuses to stage is noted, and staging goes on
//! with the next one. A refused commit applies nothing.

use vstd::prelude::*;
use crate::error::Error;
use crate::resolved::{ResolvedUpdate, WindowHandle};
use crate::{Dimensions, Point};

verus! {

/// The capacity asked for when a batch is opened. The platform grows the
/// batch as updates are staged.
pub const BATCH_CAPACITY_HINT: usize = 1;

/// The platform's name for an open batch. It is only ever passed on.
#[derive(Debug, Clone, Copy, PartialEq, Eq, Structural)]
pub struct BatchHandle(pub u64);

/// What the caller reports to the applier.
#[derive(Debug, Clone, Copy, PartialEq, Eq, Structural)]
pub enum BatchEvent {
    /// The pass begins.
    Start,
    /// The platform opened a batch.
    Opened(BatchHandle),
    /// The platform could not open a batch, and gave this code.
    OpenFailed(u32),
    /// The platform staged the update and names the batch by this handle
    /// from now on.
    Staged(BatchHandle),
    /// The platform refused to stage the update.
    StageFailed,
    /// The platform committed the batch.
    Committed,
    /// The platform refused to commit the batch, and gave this code.
    CommitFailed(u32),
}

/// What the applier asks the caller to do next.
#[derive(Debug, Clone, Copy, PartialEq, Eq, Structural)]
pub enum BatchAction {
    /// Open a batch with room for `capacity` updates.
    Begin { capacity: usize },
    /// Stage `update` into `batch`.
    Stage { batch: BatchHandle, update: ResolvedUpdate },
    /// Commit `batch`.
    Commit { batch: BatchHandle },
    /// The pass is over; the report says how it went.
    Finish,
    /// The event does not fit the state of the pass. Nothing changes.
    Ignore,
}

/// How far a pass has come.
#[derive(Debug, Clone, Copy, PartialEq, Eq, Structural)]
pub enum Phase {
    /// Not begun.
    Idle,
    /// Waiting for the platform to open a batch.
    Opening,
    /// Waiting for the platform to stage the update at `next`.
    Staging,
    /// Waiting for the platform to commit the batch.
    Committing,
    /// Over.
    Done,
}

/// The state of a pass.
pub struct BatchState {
    pub updates: Seq<ResolvedUpdate>,
    pub phase: Phase,
    /// How many updates have been answered for. While staging, the update at
    /// this position is the one that the platform holds.
    pub next: nat,
    /// The batch, once open.
    pub batch: Option<BatchHandle>,
    /// The positions of the updates that the platform refused to stage.
    pub failed: Seq<usize>,
    /// How the pass ended, once over.
    pub outcome: Option<Result<(), Error>>,
}

/// The state before a pass over `updates`.
pub open spec fn initial(updates: Seq<ResolvedUpdate>) -> BatchState {
    BatchState {
        updates,
        phase: Phase::Idle,
        next: 0,
        batch: None,
        failed: Seq::empty(),
        outcome: None,
    }
}

/// What follows the answer for the update at `state.next`, with the batch
/// now named `batch`: the next update is staged, or, after the last one, the
/// batch is committed.
pub open spec fn advance(state: BatchState, batch: BatchHandle, failed: Seq<usize>) -> (
    BatchState,
    BatchAction,
) {
    let next = state.next + 1;
    if next < state.updates.len() {
        (
            BatchState { phase: Phase::Staging, next, batch: Some(batch), failed, ..state },
            BatchAction::Stage { batch, update: state.updates[next as int] },
        )
    } else {
        (
            BatchState { phase: Phase::Committing, next, batch: Some(batch), failed, ..state },
            BatchAction::Commit { batch },
        )
    }
}

/// The pass is over with `outcome`.
pub open spec fn finish(state: BatchState, outcome: Result<(), Error>) -> (BatchState, BatchAction) {
    (BatchState { phase: Phase::Done, outcome: Some(outcome), ..state }, BatchAction::Finish)
}

/// The state after `event`, and what to do next.
pub open spec fn transition(state: BatchState, event: BatchEvent) -> (BatchState, BatchAction) {
    match (state.phase, event) {
        (Phase::Idle, BatchEvent::Start) => (
            BatchState { phase: Phase::Opening, ..state },
            BatchAction::Begin { capacity: BATCH_CAPACITY_HINT },
        ),
        (Phase::Opening, BatchEvent::Opened(batch)) => if state.updates.len() == 0 {
            (
                BatchState { phase: Phase::Committing, batch: Some(batch), ..state },
                BatchAction::Commit { batch },
            )
        } else {
            (
                BatchState { phase: Phase::Staging, batch: Some(batch), ..state },
                BatchAction::Stage { batch, update: state.updates[0] },
            )
        },
        (Phase::Opening, BatchEvent::OpenFailed(code)) => finish(
            state,
            Err(Error::CommitFailure(code)),
        ),
        (Phase::Staging, BatchEvent::Staged(batch)) => advance(state, batch, state.failed),
        (Phase::Staging, BatchEvent::StageFailed) => advance(
            state,
            state.batch.unwrap(),
            state.failed.push(state.next as usize),
        ),
        (Phase::Committing, BatchEvent::Committed) => finish(state, Ok(())),
        (Phase::Committing, BatchEvent::CommitFailed(code)) => finish(
            state,
            Err(Error::CommitFailure(code)),
        ),
        _ => (state, BatchAction::Ignore),
    }
}

/// What every state of a pass satisfies.
pub open spec fn consistent(state: BatchState) -> bool {
    &&& state.next <= state.updates.len()
    &&& state.phase == Phase::Idle || state.phase == Phase::Opening ==> state.next == 0
        && state.batch is None && state.failed.len() == 0
    &&& state.phase == Phase::Staging ==> state.batch is Some && state.next < state.updates.len()
    &&& state.phase == Phase::Committing ==> state.batch is Some && state.next
        == state.updates.len()
    &&& (state.phase == Phase::Done) == (state.outcome is Some)
    &&& state.outcome == Some(Ok::<(), Error>(())) ==> state.next == state.updates.len()
    &&& forall|i: int| 0 <= i < state.failed.len() ==> (#[trigger] state.failed[i]) < state.next
}

/// How a pass went.
#[derive(Debug, PartialEq)]
pub struct BatchReport {
    /// `Ok` when the batch was committed, else the failure that ended the
    /// pass.
    pub outcome: Result<(), Error>,
    /// The positions of the updates that could not be staged.
    pub failed: Vec<usize>,
}

/// Decides the calls of one pass and keeps its record.
pub struct BatchApplier {
    updates: Vec<ResolvedUpdate>,
    phase: Phase,
    next: usize,
    batch: Option<BatchHandle>,
    failed: Vec<usize>,
    outcome: Option<Result<(), Error>>,
}

impl View for BatchApplier {
    type V = BatchState;

    closed spec fn view(&self) -> BatchState {
        BatchState {
            updates: self.updates@,
            phase: self.phase,
            next: self.next as nat,
            batch: self.batch,
            failed: self.failed@,
            outcome: self.outcome,
        }
    }
}

impl BatchApplier {
    #[verifier::type_invariant]
    spec fn inv(self) -> bool {
        consistent(self@)
    }

    /// An applier for one pass over `updates`.
    pub fn new(updates: Vec<ResolvedUpdate>) -> (applier: Self)
        ensures
            applier@ == initial(updates@),
            consistent(applier@),
    {
        BatchApplier {
            updates,
            phase: Phase::Idle,
            next: 0,
            batch: None,
            failed: Vec::new(),
            outcome: None,
        }
    }

    fn advance(self, batch: BatchHandle, refused: bool) -> (after: (Self, BatchAction))
        requires
            self.phase == Phase::Staging,
        ensures
            (after.0@, after.1) == advance(
                self@,
                batch,
                if refused {
                    self@.failed.push(self@.next as usize)
                } else {
                    self@.failed
                },
            ),
    {
        let ghost before = self@;
        proof {
            use_type_invariant(&self);
            assert(consistent(before));
        }
        let BatchApplier { updates, phase: _, next: answered, batch: _, failed, outcome } = self;
        let count = updates.len();
        let ghost noted = failed@;
        assert(noted == before.failed);
        let mut failed = failed;
        if refused {
            failed.push(answered);
        }
        let next = answered + 1;
        assert forall|i: int| 0 <= i < failed@.len() implies (#[trigger] failed@[i]) < next by {
            if i < noted.len() {
                assert(failed@[i] == before.failed[i]);
            }
        }
        if next < count {
            let update = updates[next];
            (
                BatchApplier {
                    updates,
                    phase: Phase::Staging,
                    next,
                    batch: Some(batch),
                    failed,
                    outcome,
                },
                BatchAction::Stage { batch, update },
            )
        } else {
            (
                BatchApplier {
                    updates,
                    phase: Phase::Committing,
                    next,
                    batch: Some(batch),
                    failed,
                    outcome,
                },
                BatchAction::Commit { batch },
            )
        }
    }

    fn finish(self, outcome: Result<(), Error>) -> (after: (Self, BatchAction))
        requires
            self.phase == Phase::Opening || self.phase == Phase::Committing,
            outcome is Err || self.phase == Phase::Committing,
        ensures
            (after.0@, after.1) == finish(self@, outcome),
    {
        let ghost before = self@;
        proof {
            use_type_invariant(&self);
            assert(consistent(before));
        }
        let BatchApplier { updates, phase: _, next, batch, failed, outcome: _ } = self;
        assert forall|i: int| 0 <= i < failed@.len() implies (#[trigger] failed@[i]) < next by {
            assert(failed@[i] == before.failed[i]);
        }
        (
            BatchApplier { updates, phase: Phase::Done, next, batch, failed, outcome: Some(outcome) },
            BatchAction::Finish,
        )
    }

    /// Takes note of `event`: gives the state after it, and what to do next.
    pub fn step(self, event: BatchEvent) -> (after: (Self, BatchAction))
        ensures
            (after.0@, after.1) == transition(self@, event),
            consistent(self@),
            consistent(after.0@),
    {
        proof {
            use_type_invariant(&self);
        }
        match (self.phase, event) {
            (Phase::Idle, BatchEvent::Start) => {
                let BatchApplier { updates, phase: _, next, batch, failed, outcome } = self;
                (
                    BatchApplier { updates, phase: Phase::Opening, next, batch, failed, outcome },
                    BatchAction::Begin { capacity: BATCH_CAPACITY_HINT },
                )
            },
            (Phase::Opening, BatchEvent::Opened(opened)) => {
                let BatchApplier { updates, phase: _, next, batch: _, failed, outcome } = self;
                if updates.len() == 0 {
                    (
                        BatchApplier {
                            updates,
                            phase: Phase::Committing,
                            next,
                            batch: Some(opened),
                            failed,
                            outcome,
                        },
                        BatchAction::Commit { batch: opened },
                    )
                } else {
                    let update = updates[0];
                    (
                        BatchApplier {
                            updates,
                            phase: Phase::Staging,
                            next,
                            batch: Some(opened),
                            failed,
                            outcome,
                        },
                        BatchAction::Stage { batch: opened, update },
                    )
                }
            },
            (Phase::Opening, BatchEvent::OpenFailed(code)) => self.finish(
                Err(Error::CommitFailure(code)),
            ),
            (Phase::Staging, BatchEvent::Staged(batch)) => self.advance(batch, false),
            (Phase::Staging, BatchEvent::StageFailed) => {
                let batch = self.batch.unwrap();
                self.advance(batch, true)
            },
            (Phase::Committing, BatchEvent::Committed) => self.finish(Ok(())),
            (Phase::Committing, BatchEvent::CommitFailed(code)) => self.finish(
                Err(Error::CommitFailure(code)),
            ),
            _ => (self, BatchAction::Ignore),
        }
    }

    /// How the pass went, once it is over.
    pub fn report(&self) -> (report: Option<BatchReport>)
        ensures
            match self@.outcome {
                Some(outcome) => report matches Some(r) && r.outcome == outcome && r.failed@
                    == self@.failed,
                None => report is None,
            },
    {
        match self.outcome {
            Some(outcome) => Some(BatchReport { outcome, failed: self.failed.clone() }),
            None => None,
        }
    }
}

/// The states and actions that a series of events leads through.
pub open spec fn run(state: BatchState, events: Seq<BatchEvent>) -> (BatchState, Seq<BatchAction>)
    decreases events.len(),
{
    if events.len() == 0 {
        (state, Seq::empty())
    } else {
        let (before, actions) = run(state, events.drop_last());
        let (after, action) = transition(before, events.last());
        (after, actions.push(action))
    }
}

/// The event that reports the platform's answer to a staging: the handle it
/// gave, or none if it refused.
pub open spec fn staging_event(answer: Option<BatchHandle>) -> BatchEvent {
    match answer {
        Some(batch) => BatchEvent::Staged(batch),
        None => BatchEvent::StageFailed,
    }
}

/// The events of a pass up to the answer for the `k`-th staging.
pub open spec fn events_until(
    opened: BatchHandle,
    answers: Seq<Option<BatchHandle>>,
    k: int,
) -> Seq<BatchEvent>
    decreases k,
{
    if k <= 0 {
        seq![BatchEvent::Start, BatchEvent::Opened(opened)]
    } else {
        events_until(opened, answers, k - 1).push(staging_event(answers[k - 1]))
    }
}

/// The handle by which the batch goes after the first `k` answers: the last
/// one that the platform gave.
pub open spec fn batch_after(opened: BatchHandle, answers: Seq<Option<BatchHandle>>, k: int) -> BatchHandle
    decreases k,
{
    if k <= 0 {
        opened
    } else {
        match answers[k - 1] {
            Some(batch) => batch,
            None => batch_after(opened, answers, k - 1),
        }
    }
}

/// The positions, among the first `k` answers, of the refusals.
pub open spec fn refusals(answers: Seq<Option<BatchHandle>>, k: int) -> Seq<usize>
    decreases k,
{
    if k <= 0 {
        Seq::empty()
    } else if answers[k - 1] is None {
        refusals(answers, k - 1).push((k - 1) as usize)
    } else {
        refusals(answers, k - 1)
    }
}

/// What is asked of the platform after `k` answers: the staging of the
/// `k`-th update or, when every update has been answered for, the commit.
pub open spec fn request_after(
    updates: Seq<ResolvedUpdate>,
    opened: BatchHandle,
    answers: Seq<Option<BatchHandle>>,
    k: int,
) -> BatchAction {
    if k < updates.len() {
        BatchAction::Stage { batch: batch_after(opened, answers, k), update: updates[k] }
    } else {
        BatchAction::Commit { batch: batch_after(opened, answers, k) }
    }
}

/// The state of a pass after `k` answers.
pub open spec fn state_after(
    updates: Seq<ResolvedUpdate>,
    opened: BatchHandle,
    answers: Seq<Option<BatchHandle>>,
    k: int,
) -> BatchState {
    BatchState {
        updates,
        phase: if k < updates.len() {
            Phase::Staging
        } else {
            Phase::Committing
        },
        next: k as nat,
        batch: Some(batch_after(opened, answers, k)),
        failed: refusals(answers, k),
        outcome: None,
    }
}

/// Whatever the platform answers to the stagings, a pass stages every update
/// once, in order, each into the batch as the platform last named it, and
/// then commits: after `k` answers the pass has asked to open the batch and
/// then made the requests that follow 0 to `k` answers, and it has noted
/// exactly the refusals.
pub proof fn lemma_pass_stages_all(
    updates: Seq<ResolvedUpdate>,
    opened: BatchHandle,
    answers: Seq<Option<BatchHandle>>,
    k: int,
)
    requires
        0 <= k <= updates.len() <= usize::MAX,
        answers.len() == updates.len(),
    ensures
        run(initial(updates), events_until(opened, answers, k)).0 == state_after(
            updates,
            opened,
            answers,
            k,
        ),
        run(initial(updates), events_until(opened, answers, k)).1 == seq![
            BatchAction::Begin { capacity: BATCH_CAPACITY_HINT },
        ] + Seq::new((k + 1) as nat, |j: int| request_after(updates, opened, answers, j)),
    decreases k,
{
    let start = initial(updates);
    let events = events_until(opened, answers, k);
    let requests = Seq::new((k + 1) as nat, |j: int| request_after(updates, opened, answers, j));
    let begin = seq![BatchAction::Begin { capacity: BATCH_CAPACITY_HINT }];
    if k == 0 {
        let first = seq![BatchEvent::Start];
        assert(events.drop_last() =~= first);
        assert(first.drop_last() =~= Seq::<BatchEvent>::empty());
        assert(run(start, first.drop_last()) == (start, Seq::<BatchAction>::empty()));
        assert(run(start, first).1 =~= begin);
        assert(run(start, events).1 =~= begin + requests);
        assert(run(start, events).0.failed =~= refusals(answers, 0));
    } else {
        lemma_pass_stages_all(updates, opened, answers, k - 1);
        let shorter = events_until(opened, answers, k - 1);
        assert(events.drop_last() =~= shorter);
        let before = state_after(updates, opened, answers, k - 1);
        let requests_before = Seq::new(
            k as nat,
            |j: int| request_after(updates, opened, answers, j),
        );
        assert(run(start, events).1 == (begin + requests_before).push(
            transition(before, events.last()).1,
        ));
        assert(transition(before, events.last()).1 == request_after(updates, opened, answers, k));
        assert((begin + requests_before).push(request_after(updates, opened, answers, k)) =~= begin
            + requests);
        assert(run(start, events).0.failed =~= refusals(answers, k));
    }
}

/// The end of a pass: once every staging is answered, the answer to the
/// commit ends the pass, with the commit's failure if it was refused and
/// with the refusals noted.
pub proof fn lemma_pass_ends_with_commit(
    updates: Seq<ResolvedUpdate>,
    opened: BatchHandle,
    answers: Seq<Option<BatchHandle>>,
    commit: BatchEvent,
)
    requires
        updates.len() <= usize::MAX,
        answers.len() == updates.len(),
        commit == BatchEvent::Committed || commit matches BatchEvent::CommitFailed(_),
    ensures
        ({
            let end = run(
                initial(updates),
                events_until(opened, answers, updates.len() as int).push(commit),
            );
            &&& end.1.last() == BatchAction::Finish
            &&& end.0.phase == Phase::Done
            &&& end.0.failed == refusals(answers, updates.len() as int)
            &&& end.0.outcome == Some(
                match commit {
                    BatchEvent::CommitFailed(code) => Err::<(), Error>(Error::CommitFailure(code)),
                    _ => Ok::<(), Error>(()),
                },
            )
        }),
{
    let n = updates.len() as int;
    lemma_pass_stages_all(updates, opened, answers, n);
    let events = events_until(opened, answers, n).push(commit);
    assert(events.drop_last() =~= events_until(opened, answers, n));
}

/// The bounds of a window: where it is and how large.
#[derive(Debug, Clone, Copy, PartialEq, Eq, Structural)]
pub struct Bounds {
    pub origin: Point,
    pub size: Dimensions,
}

/// The bounds that a window has once `update` took effect: the position of
/// the update unless it skips the move, and its size unless it skips the
/// resize.
pub open spec fn moved(bounds: Bounds, update: ResolvedUpdate) -> Bounds {
    Bounds {
        origin: if update.skip_move {
            bounds.origin
        } else {
            Point { x: update.x, y: update.y }
        },
        size: if update.skip_resize {
            bounds.size
        } else {
            Dimensions { width: update.width, height: update.height }
        },
    }
}

/// The bounds of the window `handle` once `applied` took effect, in that
/// order: of several updates to one window the last one decides.
pub open spec fn settled(handle: WindowHandle, bounds: Bounds, applied: Seq<ResolvedUpdate>) -> Bounds
    decreases applied.len(),
{
    if applied.len() == 0 {
        bounds
    } else {
        let before = settled(handle, bounds, applied.drop_last());
        if applied.last().handle == handle {
            moved(before, applied.last())
        } else {
            before
        }
    }
}

/// The updates, among the first `n`, that were staged.
pub open spec fn staged(updates: Seq<ResolvedUpdate>, failed: Seq<usize>, n: int) -> Seq<
    ResolvedUpdate,
>
    decreases n,
{
    if n <= 0 {
        Seq::empty()
    } else if failed.contains((n - 1) as usize) {
        staged(updates, failed, n - 1)
    } else {
        staged(updates, failed, n - 1).push(updates[n - 1])
    }
}

/// The updates that took effect in a pass that ended with `outcome`: those
/// that were staged if the batch was committed, else none.
pub open spec fn applied(
    updates: Seq<ResolvedUpdate>,
    failed: Seq<usize>,
    outcome: Result<(), Error>,
) -> Seq<ResolvedUpdate> {
    if outcome is Ok {
        staged(updates, failed, updates.len() as int)
    } else {
        Seq::empty()
    }
}

fn contains_position(list: &Vec<usize>, position: usize) -> (found: bool)
    ensures
        found == list@.contains(position),
{
    let mut i: usize = 0;
    while i < list.len()
        invariant
            i <= list.len(),
            forall|k: int| 0 <= k < i ==> list@[k] != position,
        decreases list.len() - i,
    {
        if list[i] == position {
            return true;
        }
        i += 1;
    }
    false
}

/// Lists the updates that took effect in a pass over `updates`.
pub fn applied_updates(updates: &Vec<ResolvedUpdate>, report: &BatchReport) -> (list: Vec<
    ResolvedUpdate,
>)
    ensures
        list@ == applied(updates@, report.failed@, report.outcome),
{
    let mut list: Vec<ResolvedUpdate> = Vec::new();
    if report.outcome.is_err() {
        return list;
    }
    let mut i: usize = 0;
    while i < updates.len()
        invariant
            i <= updates.len(),
            list@ == staged(updates@, report.failed@, i as int),
        decreases updates.len() - i,
    {
        if !contains_position(&report.failed, i) {
            list.push(updates[i]);
        }
        i += 1;
    }
    list
}

/// Computes the bounds of the window `handle` once `applied` took effect.
pub fn settle(handle: WindowHandle, bounds: Bounds, applied: &Vec<ResolvedUpdate>) -> (after: Bounds)
    ensures
        after == settled(handle, bounds, applied@),
{
    let mut after = bounds;
    let mut i: usize = 0;
    assert(applied@.take(0) =~= Seq::<ResolvedUpdate>::empty());
    while i < applied.len()
        invariant
            i <= applied.len(),
            after == settled(handle, bounds, applied@.take(i as int)),
        decreases applied.len() - i,
    {
        let update = applied[i];
        proof {
            let upto = applied@.take(i as int + 1);
            assert(upto.drop_last() =~= applied@.take(i as int));
            assert(upto.last() == applied@[i as int]);
        }
        if update.handle == handle {
            if !update.skip_move {
                after.origin = Point { x: update.x, y: update.y };
            }
            if !update.skip_resize {
                after.size = Dimensions { width: update.width, height: update.height };
            }
        }
        i += 1;
    }
    assert(applied@.take(applied@.len() as int) =~= applied@);
    after
}

/// A pass whose commit is refused applies nothing: every window keeps the
/// bounds it had.
pub proof fn lemma_refused_commit_applies_nothing(
    updates: Seq<ResolvedUpdate>,
    failed: Seq<usize>,
    outcome: Result<(), Error>,
    handle: WindowHandle,
    bounds: Bounds,
)
    requires
        outcome is Err,
    ensures
        applied(updates, failed, outcome).len() == 0,
        settled(handle, bounds, applied(updates, failed, outcome)) == bounds,
{
}

/// An update that skips the move leaves the position alone, and one that
/// skips the resize leaves the size alone.
pub proof fn lemma_skipped_axes_stay(bounds: Bounds, update: ResolvedUpdate)
    ensures
        update.skip_move ==> moved(bounds, update).origin == bounds.origin,
        update.skip_resize ==> moved(bounds, update).size == bounds.size,
{
}

} // verus!
