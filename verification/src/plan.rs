//! Planning one layout pass: every entry of the layout, in order, is bound
//! to the first live window that satisfies it, resolved against that window's
//! monitor, and cascaded where it shares its process with an entry before it.

use vstd::prelude::*;
use crate::Point;
use crate::batch::BatchReport;
use crate::cascade::{can_place, fans_out, next_position, CascadeAllocator};
use crate::error::Error;
use crate::layout::{Layout, Screen, Window};
use crate::pattern::{probe, Probe};
use crate::platform::win::{
    binding, find_match, has_invalid_pattern, resolve, Rectangle, Win32Monitor, Win32Window,
};
use crate::resolved::{MonitorHandle, ResolvedUpdate};

verus! {

/// The work area of the first monitor at or after `from` that goes by
/// `handle`.
pub open spec fn work_area_from(
    monitors: Seq<Win32Monitor>,
    handle: MonitorHandle,
    from: int,
) -> Option<Rectangle>
    decreases monitors.len() - from,
{
    if from < 0 || from >= monitors.len() {
        None
    } else if monitors[from].hmonitor == handle {
        Some(monitors[from].work)
    } else {
        work_area_from(monitors, handle, from + 1)
    }
}

/// The work area of the monitor that goes by `handle`.
pub open spec fn work_area_of(monitors: Seq<Win32Monitor>, handle: MonitorHandle) -> Option<
    Rectangle,
> {
    work_area_from(monitors, handle, 0)
}

/// A window whose extent can be represented and whose monitor is listed.
pub open spec fn window_known(window: Win32Window, monitors: Seq<Win32Monitor>) -> bool {
    window.rect.wf() && work_area_of(monitors, window.monitor) is Some
}

/// A snapshot in which every window is known.
pub open spec fn snapshot_wf(windows: Seq<Win32Window>, monitors: Seq<Win32Monitor>) -> bool {
    forall|i: int| 0 <= i < windows.len() ==> window_known(#[trigger] windows[i], monitors)
}

/// Finds the work area of the monitor that goes by `handle`.
pub fn find_work_area(monitors: &Vec<Win32Monitor>, handle: MonitorHandle) -> (area: Option<
    Rectangle,
>)
    ensures
        area == work_area_of(monitors@, handle),
{
    let mut i: usize = 0;
    while i < monitors.len()
        invariant
            i <= monitors.len(),
            work_area_of(monitors@, handle) == work_area_from(monitors@, handle, i as int),
        decreases monitors.len() - i,
    {
        if monitors[i].hmonitor == handle {
            return Some(monitors[i].work);
        }
        i += 1;
    }
    None
}

/// Checks that every window of a snapshot is known.
pub fn check_snapshot(windows: &Vec<Win32Window>, monitors: &Vec<Win32Monitor>) -> (ok: bool)
    ensures
        ok == snapshot_wf(windows@, monitors@),
{
    let mut i: usize = 0;
    while i < windows.len()
        invariant
            i <= windows.len(),
            forall|k: int| 0 <= k < i ==> window_known(#[trigger] windows[k], monitors@),
        decreases windows.len() - i,
    {
        let r = &windows[i].rect.0;
        let width = r.right as i64 - r.left as i64;
        let height = r.bottom as i64 - r.top as i64;
        let fits = i32::MIN as i64 <= width && width <= i32::MAX as i64 && i32::MIN as i64 <= height
            && height <= i32::MAX as i64;
        if !fits || find_work_area(monitors, windows[i].monitor).is_none() {
            assert(!window_known(windows[i as int], monitors@));
            return false;
        }
        i += 1;
    }
    true
}

/// The entries of a list of screens, screen by screen.
pub open spec fn entries_of(screens: Seq<Screen>) -> Seq<Window>
    decreases screens.len(),
{
    if screens.len() == 0 {
        Seq::empty()
    } else {
        entries_of(screens.drop_last()) + screens.last().windows@
    }
}

/// Whether an entry takes part in cascading: it allows it, it names a
/// process, and it asks for a position.
pub open spec fn cascades(entry: Window, base: ResolvedUpdate) -> bool {
    entry.allow_cascade && entry.process is Some && !base.skip_move
}

/// What one entry adds to a plan.
pub enum Step {
    /// The entry binds no window.
    Unbound,
    /// The entry binds a window, which gets this update; the cascade is then
    /// in this state.
    Bound(ResolvedUpdate, Map<Seq<char>, Point>),
    /// The entry's cascaded position is out of range.
    OutOfRange,
}

/// What `entry` adds to a plan, with the cascade in `state`.
pub open spec fn step(
    entry: Window,
    windows: Seq<Win32Window>,
    monitors: Seq<Win32Monitor>,
    state: Map<Seq<char>, Point>,
) -> Step {
    match binding(windows, entry) {
        None => Step::Unbound,
        Some(at) => {
            let window = windows[at];
            let base = resolve(
                entry,
                window.hwnd,
                window.rect,
                work_area_of(monitors, window.monitor).unwrap(),
            );
            if cascades(entry, base) {
                let process = entry.process.unwrap()@;
                if can_place(state, process) {
                    let position = next_position(state, process, Point { x: base.x, y: base.y });
                    Step::Bound(
                        ResolvedUpdate { x: position.x, y: position.y, ..base },
                        state.insert(process, position),
                    )
                } else {
                    Step::OutOfRange
                }
            } else {
                Step::Bound(base, state)
            }
        },
    }
}

/// The updates that `entries` give, in order, starting with the cascade in
/// `state`; `None` when a cascaded position is out of range.
pub open spec fn plan_from(
    entries: Seq<Window>,
    windows: Seq<Win32Window>,
    monitors: Seq<Win32Monitor>,
    state: Map<Seq<char>, Point>,
) -> Option<Seq<ResolvedUpdate>>
    decreases entries.len(),
{
    if entries.len() == 0 {
        Some(Seq::empty())
    } else {
        match step(entries[0], windows, monitors, state) {
            Step::OutOfRange => None,
            Step::Unbound => plan_from(entries.drop_first(), windows, monitors, state),
            Step::Bound(update, next) => match plan_from(
                entries.drop_first(),
                windows,
                monitors,
                next,
            ) {
                Some(rest) => Some(seq![update] + rest),
                None => None,
            },
        }
    }
}

/// The updates of one pass over `entries`.
pub open spec fn plan_of(
    entries: Seq<Window>,
    windows: Seq<Win32Window>,
    monitors: Seq<Win32Monitor>,
) -> Option<Seq<ResolvedUpdate>> {
    plan_from(entries, windows, monitors, Map::empty())
}

/// The positions, among the first `n` entries, of those that hold an invalid
/// pattern.
pub open spec fn invalid_entries(entries: Seq<Window>, n: int) -> Seq<usize>
    decreases n,
{
    if n <= 0 {
        Seq::empty()
    } else if has_invalid_pattern(entries[n - 1]) {
        invalid_entries(entries, n - 1).push((n - 1) as usize)
    } else {
        invalid_entries(entries, n - 1)
    }
}

/// The outcome of planning a pass.
#[derive(Debug, PartialEq)]
pub struct Plan {
    /// The updates to stage, in the order of the entries that gave them.
    pub updates: Vec<ResolvedUpdate>,
    /// The positions of the entries that were skipped for an invalid pattern.
    pub skipped: Vec<usize>,
}

/// `done` followed by what is still to come.
pub open spec fn then(done: Seq<ResolvedUpdate>, rest: Option<Seq<ResolvedUpdate>>) -> Option<
    Seq<ResolvedUpdate>,
> {
    match rest {
        Some(rest) => Some(done + rest),
        None => None,
    }
}

/// Decides whether an entry holds an invalid pattern.
pub fn is_invalid(entry: &Window) -> (invalid: bool)
    ensures
        invalid == has_invalid_pattern(*entry),
{
    let nothing: Option<String> = None;
    let title = probe(&entry.title, &nothing);
    let process = probe(&entry.process, &nothing);
    title == Probe::Invalid || process == Probe::Invalid
}

/// Plans one pass over `entries`.
///
/// Fails with `PlatformEnumerationFailure` on a snapshot with a window that
/// is not known, and with `PositionOutOfRange` when a cascaded position
/// cannot be represented. Entries with an invalid pattern are skipped and
/// listed; they change nothing for the entries after them.
pub fn plan_entries(
    entries: &Vec<Window>,
    windows: &Vec<Win32Window>,
    monitors: &Vec<Win32Monitor>,
) -> (outcome: Result<Plan, Error>)
    ensures
        !snapshot_wf(windows@, monitors@) ==> outcome == Err::<Plan, Error>(
            Error::PlatformEnumerationFailure,
        ),
        snapshot_wf(windows@, monitors@) ==> match plan_of(entries@, windows@, monitors@) {
            Some(updates) => outcome matches Ok(plan) && plan.updates@ == updates && plan.skipped@
                == invalid_entries(entries@, entries@.len() as int),
            None => outcome == Err::<Plan, Error>(Error::PositionOutOfRange),
        },
{
    if !check_snapshot(windows, monitors) {
        return Err(Error::PlatformEnumerationFailure);
    }
    let mut cascade = CascadeAllocator::new();
    let mut updates: Vec<ResolvedUpdate> = Vec::new();
    let mut skipped: Vec<usize> = Vec::new();
    let mut k: usize = 0;
    assert(entries@.skip(0) =~= entries@);
    while k < entries.len()
        invariant
            k <= entries.len(),
            snapshot_wf(windows@, monitors@),
            skipped@ == invalid_entries(entries@, k as int),
            plan_of(entries@, windows@, monitors@) == then(
                updates@,
                plan_from(entries@.skip(k as int), windows@, monitors@, cascade@),
            ),
        decreases entries.len() - k,
    {
        let entry = &entries[k];
        let ghost rest = entries@.skip(k as int);
        let ghost state = cascade@;
        proof {
            assert(rest[0] == entries@[k as int]);
            assert(rest.drop_first() =~= entries@.skip(k as int + 1));
        }
        if is_invalid(entry) {
            skipped.push(k);
        }
        match find_match(windows, entry) {
            None => {},
            Some(at) => {
                let window = &windows[at];
                assert(window_known(windows@[at as int], monitors@));
                let area = find_work_area(monitors, window.monitor).unwrap();
                let mut live = Win32Window {
                    hwnd: window.hwnd,
                    monitor: window.monitor,
                    rect: window.rect,
                    window: Window::new(),
                };
                let base = live.layout(entry, &area);
                if entry.allow_cascade && entry.process.is_some() && !base.skip_move {
                    let process = entry.process.as_ref().unwrap();
                    match cascade.try_place(process.as_str(), Point { x: base.x, y: base.y }) {
                        Some(position) => {
                            let update = ResolvedUpdate { x: position.x, y: position.y, ..base };
                            proof {
                                let tail = plan_from(
                                    rest.drop_first(),
                                    windows@,
                                    monitors@,
                                    cascade@,
                                );
                                if tail is Some {
                                    assert(updates@.push(update) + tail.unwrap() =~= updates@ + (
                                    seq![update] + tail.unwrap()));
                                }
                            }
                            updates.push(update);
                        },
                        None => {
                            return Err(Error::PositionOutOfRange);
                        },
                    }
                } else {
                    proof {
                        let tail = plan_from(rest.drop_first(), windows@, monitors@, cascade@);
                        if tail is Some {
                            assert(updates@.push(base) + tail.unwrap() =~= updates@ + (seq![base]
                                + tail.unwrap()));
                        }
                    }
                    updates.push(base);
                }
            },
        }
        k += 1;
    }
    proof {
        assert(entries@.skip(entries@.len() as int) =~= Seq::<Window>::empty());
        assert(updates@ + Seq::<ResolvedUpdate>::empty() =~= updates@);
    }
    Ok(Plan { updates, skipped })
}

/// Lists the entries of a layout, screen by screen.
pub fn entries(layout: &Layout) -> (list: Vec<Window>)
    ensures
        list@ == entries_of(layout.screens@),
{
    let mut list: Vec<Window> = Vec::new();
    let mut s: usize = 0;
    assert(layout.screens@.take(0) =~= Seq::<Screen>::empty());
    while s < layout.screens.len()
        invariant
            s <= layout.screens.len(),
            list@ == entries_of(layout.screens@.take(s as int)),
        decreases layout.screens.len() - s,
    {
        let screen = &layout.screens[s];
        let ghost before = list@;
        let mut w: usize = 0;
        while w < screen.windows.len()
            invariant
                w <= screen.windows.len(),
                list@ == before + screen.windows@.take(w as int),
            decreases screen.windows.len() - w,
        {
            list.push(screen.windows[w].clone());
            assert(screen.windows@.take(w as int + 1) =~= screen.windows@.take(w as int).push(
                screen.windows@[w as int],
            ));
            w += 1;
        }
        proof {
            assert(screen.windows@.take(screen.windows@.len() as int) =~= screen.windows@);
            let upto = layout.screens@.take(s as int + 1);
            assert(upto.drop_last() =~= layout.screens@.take(s as int));
            assert(upto.last() == layout.screens@[s as int]);
        }
        s += 1;
    }
    assert(layout.screens@.take(layout.screens@.len() as int) =~= layout.screens@);
    list
}

/// Plans one pass over a layout: over the entries of its screens, in order.
pub fn plan_layout(
    layout: &Layout,
    windows: &Vec<Win32Window>,
    monitors: &Vec<Win32Monitor>,
) -> (outcome: Result<Plan, Error>)
    ensures
        !snapshot_wf(windows@, monitors@) ==> outcome == Err::<Plan, Error>(
            Error::PlatformEnumerationFailure,
        ),
        snapshot_wf(windows@, monitors@) ==> match plan_of(
            entries_of(layout.screens@),
            windows@,
            monitors@,
        ) {
            Some(updates) => outcome matches Ok(plan) && plan.updates@ == updates && plan.skipped@
                == invalid_entries(
                entries_of(layout.screens@),
                entries_of(layout.screens@).len() as int,
            ),
            None => outcome == Err::<Plan, Error>(Error::PositionOutOfRange),
        },
{
    let list = entries(layout);
    plan_entries(&list, windows, monitors)
}

/// An entry that holds an invalid pattern is skipped, and the plan is the one
/// that the other entries give without it: its updates, and whether a
/// position is out of range.
pub proof fn lemma_invalid_entry_changes_nothing(
    entries: Seq<Window>,
    at: int,
    windows: Seq<Win32Window>,
    monitors: Seq<Win32Monitor>,
)
    requires
        0 <= at < entries.len(),
        has_invalid_pattern(entries[at]),
    ensures
        plan_of(entries, windows, monitors) == plan_of(entries.remove(at), windows, monitors),
{
    lemma_skipping_invalid(entries, at, windows, monitors, Map::empty());
}

proof fn lemma_skipping_invalid(
    entries: Seq<Window>,
    at: int,
    windows: Seq<Win32Window>,
    monitors: Seq<Win32Monitor>,
    state: Map<Seq<char>, Point>,
)
    requires
        0 <= at < entries.len(),
        has_invalid_pattern(entries[at]),
    ensures
        plan_from(entries, windows, monitors, state) == plan_from(
            entries.remove(at),
            windows,
            monitors,
            state,
        ),
    decreases at,
{
    if at == 0 {
        crate::platform::win::lemma_invalid_binds_nothing(windows, entries[0]);
        assert(entries.remove(0) =~= entries.drop_first());
    } else {
        let shorter = entries.remove(at);
        assert(shorter[0] == entries[0]);
        assert(shorter.drop_first() =~= entries.drop_first().remove(at - 1));
        match step(entries[0], windows, monitors, state) {
            Step::OutOfRange => {},
            Step::Unbound => {
                lemma_skipping_invalid(entries.drop_first(), at - 1, windows, monitors, state);
            },
            Step::Bound(update, next) => {
                lemma_skipping_invalid(entries.drop_first(), at - 1, windows, monitors, next);
            },
        }
    }
}

/// The positions that one pass gives, in order, to the entries that cascade
/// for `process`, starting with the cascade in `state`.
pub open spec fn cascaded_positions(
    entries: Seq<Window>,
    windows: Seq<Win32Window>,
    monitors: Seq<Win32Monitor>,
    state: Map<Seq<char>, Point>,
    process: Seq<char>,
) -> Seq<Point>
    decreases entries.len(),
{
    if entries.len() == 0 {
        Seq::empty()
    } else {
        match step(entries[0], windows, monitors, state) {
            Step::OutOfRange => Seq::empty(),
            Step::Unbound => cascaded_positions(
                entries.drop_first(),
                windows,
                monitors,
                state,
                process,
            ),
            Step::Bound(update, next) => {
                let rest = cascaded_positions(
                    entries.drop_first(),
                    windows,
                    monitors,
                    next,
                    process,
                );
                if cascades(entries[0], update) && entries[0].process.unwrap()@ == process {
                    seq![Point { x: update.x, y: update.y }] + rest
                } else {
                    rest
                }
            },
        }
    }
}

/// Within one pass, of the windows bound by cascading entries of one
/// process, each but the first is put 30 pixels right of and 30 pixels below
/// the one before it.
pub proof fn lemma_cascade_fans_out(
    entries: Seq<Window>,
    windows: Seq<Win32Window>,
    monitors: Seq<Win32Monitor>,
    process: Seq<char>,
)
    ensures
        fans_out(cascaded_positions(entries, windows, monitors, Map::empty(), process)),
{
    lemma_cascade_chain(entries, windows, monitors, Map::empty(), process);
}

proof fn lemma_cascade_chain(
    entries: Seq<Window>,
    windows: Seq<Win32Window>,
    monitors: Seq<Win32Monitor>,
    state: Map<Seq<char>, Point>,
    process: Seq<char>,
)
    ensures
        fans_out(cascaded_positions(entries, windows, monitors, state, process)),
        state.contains_key(process) && cascaded_positions(
            entries,
            windows,
            monitors,
            state,
            process,
        ).len() > 0 ==> {
            let first = cascaded_positions(entries, windows, monitors, state, process)[0];
            &&& first.x == state[process].x + crate::cascade::CASCADE_DELTA
            &&& first.y == state[process].y + crate::cascade::CASCADE_DELTA
        },
    decreases entries.len(),
{
    if entries.len() > 0 {
        match step(entries[0], windows, monitors, state) {
            Step::OutOfRange => {},
            Step::Unbound => {
                lemma_cascade_chain(entries.drop_first(), windows, monitors, state, process);
            },
            Step::Bound(update, next) => {
                lemma_cascade_chain(entries.drop_first(), windows, monitors, next, process);
                let rest = cascaded_positions(
                    entries.drop_first(),
                    windows,
                    monitors,
                    next,
                    process,
                );
                if cascades(entries[0], update) && entries[0].process.unwrap()@ == process {
                    let all = seq![Point { x: update.x, y: update.y }] + rest;
                    assert(next.contains_key(process));
                    assert(next[process] == Point { x: update.x, y: update.y });
                    assert forall|k: int| 1 <= k < all.len() implies {
                        &&& (#[trigger] all[k]).x == all[k - 1].x + crate::cascade::CASCADE_DELTA
                        &&& all[k].y == all[k - 1].y + crate::cascade::CASCADE_DELTA
                    } by {
                        if k > 1 {
                            assert(all[k] == rest[k - 1]);
                            assert(all[k - 1] == rest[k - 2]);
                        }
                    }
                }
            },
        }
    }
}

/// An entry with neither `x` nor `y` leaves the window it binds where it is:
/// the update skips the move, holds the position that the window has, and
/// the cascade stays as it was.
pub proof fn lemma_unpositioned_entry_keeps_place(
    entry: Window,
    windows: Seq<Win32Window>,
    monitors: Seq<Win32Monitor>,
    state: Map<Seq<char>, Point>,
)
    requires
        entry.x is None,
        entry.y is None,
    ensures
        match step(entry, windows, monitors, state) {
            Step::Unbound => binding(windows, entry) is None,
            Step::Bound(update, next) => {
                &&& binding(windows, entry) matches Some(at) && update.handle == windows[at].hwnd
                    && update.x == windows[at].rect.0.left && update.y == windows[at].rect.0.top
                &&& update.skip_move
                &&& next == state
            },
            Step::OutOfRange => false,
        },
{
}

/// Something that went wrong in a pass without ending it.
#[derive(Debug, Clone, Copy, PartialEq, Eq, Structural)]
pub struct Issue {
    /// For an invalid pattern, the position of the entry that holds it; for
    /// a refused staging, the position of the update among the updates.
    pub position: usize,
    /// `InvalidPattern` or `StagingFailure`.
    pub error: Error,
}

/// What went wrong in a pass without ending it: first the entries that were
/// skipped for an invalid pattern, then the updates that the platform
/// refused to stage, each in order.
pub open spec fn issues_of(skipped: Seq<usize>, failed: Seq<usize>) -> Seq<Issue> {
    skipped.map_values(|position: usize| Issue { position, error: Error::InvalidPattern })
        + failed.map_values(|position: usize| Issue { position, error: Error::StagingFailure })
}

/// Gathers what went wrong in a pass without ending it.
pub fn issues(plan: &Plan, report: &BatchReport) -> (list: Vec<Issue>)
    ensures
        list@ == issues_of(plan.skipped@, report.failed@),
{
    let mut list: Vec<Issue> = Vec::new();
    let ghost invalid = plan.skipped@.map_values(
        |position: usize| Issue { position, error: Error::InvalidPattern },
    );
    let ghost refused = report.failed@.map_values(
        |position: usize| Issue { position, error: Error::StagingFailure },
    );
    let mut i: usize = 0;
    while i < plan.skipped.len()
        invariant
            i <= plan.skipped.len(),
            invalid == plan.skipped@.map_values(
                |position: usize| Issue { position, error: Error::InvalidPattern },
            ),
            list@ == invalid.take(i as int),
        decreases plan.skipped.len() - i,
    {
        list.push(Issue { position: plan.skipped[i], error: Error::InvalidPattern });
        assert(invalid.take(i as int + 1) =~= invalid.take(i as int).push(invalid[i as int]));
        i += 1;
    }
    assert(invalid.take(invalid.len() as int) =~= invalid);
    let mut k: usize = 0;
    while k < report.failed.len()
        invariant
            k <= report.failed.len(),
            refused == report.failed@.map_values(
                |position: usize| Issue { position, error: Error::StagingFailure },
            ),
            list@ == invalid + refused.take(k as int),
        decreases report.failed.len() - k,
    {
        list.push(Issue { position: report.failed[k], error: Error::StagingFailure });
        assert(invalid + refused.take(k as int + 1) =~= (invalid + refused.take(k as int)).push(
            refused[k as int],
        ));
        k += 1;
    }
    assert(refused.take(refused.len() as int) =~= refused);
    list
}

} // verus!
