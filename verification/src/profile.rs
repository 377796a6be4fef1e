//! A profile of windows with positions in pixels: live windows are assigned
//! to its entries, and the entries are applied, with windows of one process
//! fanned out.

use vstd::prelude::*;
use crate::cascade::{can_place, fans_out, next_position, CascadeAllocator, CASCADE_DELTA};
use crate::error::Error;
use crate::pattern::{probe, probe_of, Probe};
use crate::resolved::{ResolvedUpdate, StateFlags, WindowHandle};
use crate::text::{basename, basename_of};
use crate::{Dimensions, Point};

verus! {

/// Where a window's top left corner is.
#[derive(Debug, Clone, Copy, PartialEq, Eq, Structural)]
pub struct Location {
    pub x: i32,
    pub y: i32,
}

/// What cascading is set to where a profile does not say.
pub fn default_as_true() -> (b: bool)
    ensures
        b,
{
    true
}

/// An entry of a profile, or a live window.
///
/// As an entry, `title` and `process` are patterns, `location` and
/// `dimensions` are what is wanted, and `hwnd` lists the live windows that
/// were assigned to it. As a live window, `hwnd` holds its one handle and the
/// rest describes it.
#[derive(Debug, PartialEq)]
pub struct Window {
    pub hwnd: Vec<WindowHandle>,
    pub allow_cascade: bool,
    pub title: Option<String>,
    pub process: Option<String>,
    pub location: Option<Location>,
    pub dimensions: Option<Dimensions>,
}

impl Window {
    /// A live window, as the platform describes it. Of the path of its
    /// program only the last part is kept.
    pub fn live(
        hwnd: WindowHandle,
        title: String,
        process: String,
        location: Location,
        dimensions: Dimensions,
    ) -> (window: Self)
        ensures
            window.hwnd@ == seq![hwnd],
            window.allow_cascade,
            window.title == Some(title),
            window.process matches Some(name) && name@ == basename_of(process@),
            window.location == Some(location),
            window.dimensions == Some(dimensions),
    {
        let mut handles: Vec<WindowHandle> = Vec::new();
        handles.push(hwnd);
        Window {
            hwnd: handles,
            allow_cascade: true,
            title: Some(title),
            process: Some(basename(process.as_str())),
            location: Some(location),
            dimensions: Some(dimensions),
        }
    }
}

impl Clone for Window {
    fn clone(&self) -> (copy: Self)
        ensures
            copy.hwnd@ == self.hwnd@,
            copy.allow_cascade == self.allow_cascade,
            copy.title == self.title,
            copy.process == self.process,
            copy.location == self.location,
            copy.dimensions == self.dimensions,
    {
        Window {
            hwnd: self.hwnd.clone(),
            allow_cascade: self.allow_cascade,
            title: self.title.clone(),
            process: self.process.clone(),
            location: self.location,
            dimensions: self.dimensions,
        }
    }
}

/// An ordered list of entries.
#[derive(Debug, PartialEq)]
pub struct Profile {
    pub windows: Vec<Window>,
}

impl Profile {
    pub fn new() -> (profile: Self)
        ensures
            profile.windows@.len() == 0,
    {
        Profile { windows: Vec::new() }
    }
}

/// Whether a live window is assigned to an entry, given the outcomes for the
/// title and for the process. An entry with a title pattern goes by the
/// title alone; only an entry without one goes by the process.
pub open spec fn assigned(title: Probe, process: Probe) -> bool {
    match title {
        Probe::Found => true,
        Probe::Unasked => process == Probe::Found,
        _ => false,
    }
}

/// Decides whether a live window is assigned to an entry, from the two
/// outcomes.
pub fn assigns(title: Probe, process: Probe) -> (yes: bool)
    ensures
        yes == assigned(title, process),
{
    match title {
        Probe::Found => true,
        Probe::Unasked => process == Probe::Found,
        _ => false,
    }
}

/// Whether the live window `active` is one for the entry `entry`.
pub open spec fn takes(entry: Window, active: Window) -> bool {
    assigned(probe_of(entry.title, active.title), probe_of(entry.process, active.process))
}

/// The least index `>= from` of an entry that takes `active`, or the number
/// of entries when there is none.
pub open spec fn first_taking(entries: Seq<Window>, active: Window, from: int) -> int
    decreases entries.len() - from,
{
    if from >= entries.len() {
        entries.len() as int
    } else if takes(entries[from], active) {
        from
    } else {
        first_taking(entries, active, from + 1)
    }
}

/// The handles that each entry holds once the first `n` live windows have
/// been assigned: every live window, in order, gives its handles to the
/// first entry that takes it.
pub open spec fn assigned_handles(entries: Seq<Window>, actives: Seq<Window>, n: int) -> Seq<
    Seq<WindowHandle>,
>
    decreases n,
{
    if n <= 0 {
        Seq::new(entries.len(), |j: int| entries[j].hwnd@)
    } else {
        let before = assigned_handles(entries, actives, n - 1);
        let at = first_taking(entries, actives[n - 1], 0);
        if at < entries.len() {
            before.update(at, before[at] + actives[n - 1].hwnd@)
        } else {
            before
        }
    }
}

/// The first entry that takes a window, sought from `from` on, lies between
/// `from` and the end, and takes the window unless it is the end.
pub proof fn lemma_first_taking(entries: Seq<Window>, active: Window, from: int)
    requires
        0 <= from <= entries.len(),
    ensures
        from <= first_taking(entries, active, from) <= entries.len(),
        first_taking(entries, active, from) < entries.len() ==> takes(
            entries[first_taking(entries, active, from)],
            active,
        ),
        forall|j: int| from <= j < first_taking(entries, active, from) ==> !takes(entries[j], active),
    decreases entries.len() - from,
{
    if from < entries.len() && !takes(entries[from], active) {
        lemma_first_taking(entries, active, from + 1);
    }
}

/// Every entry has its list of handles, however many live windows were
/// assigned.
pub proof fn lemma_assigned_handles_len(entries: Seq<Window>, actives: Seq<Window>, n: int)
    ensures
        assigned_handles(entries, actives, n).len() == entries.len(),
    decreases n,
{
    if n > 0 {
        lemma_assigned_handles_len(entries, actives, n - 1);
        lemma_first_taking(entries, actives[n - 1], 0);
    }
}

/// Decides whether `entry` takes the live window `active`.
pub fn is_taken(entry: &Window, active: &Window) -> (yes: bool)
    ensures
        yes == takes(*entry, *active),
{
    let title = probe(&entry.title, &active.title);
    if title == Probe::Unasked {
        let process = probe(&entry.process, &active.process);
        assigns(title, process)
    } else {
        assigns(title, Probe::Unasked)
    }
}

/// Finds the first entry that takes `active`.
pub fn find_entry(entries: &Vec<Window>, active: &Window) -> (found: Option<usize>)
    ensures
        match found {
            Some(at) => at < entries.len() && at == first_taking(entries@, *active, 0),
            None => first_taking(entries@, *active, 0) == entries.len(),
        },
{
    let mut j: usize = 0;
    while j < entries.len()
        invariant
            j <= entries.len(),
            first_taking(entries@, *active, 0) == first_taking(entries@, *active, j as int),
        decreases entries.len() - j,
    {
        if is_taken(&entries[j], active) {
            return Some(j);
        }
        j += 1;
    }
    None
}

/// The description of an entry: all of it but the handles.
pub open spec fn same_description(a: Window, b: Window) -> bool {
    &&& a.allow_cascade == b.allow_cascade
    &&& a.title == b.title
    &&& a.process == b.process
    &&& a.location == b.location
    &&& a.dimensions == b.dimensions
}

fn add_handles(entry: &mut Window, handles: &Vec<WindowHandle>)
    ensures
        final(entry).hwnd@ == old(entry).hwnd@ + handles@,
        same_description(*final(entry), *old(entry)),
{
    let mut i: usize = 0;
    while i < handles.len()
        invariant
            i <= handles.len(),
            entry.hwnd@ == old(entry).hwnd@ + handles@.take(i as int),
            same_description(*entry, *old(entry)),
        decreases handles.len() - i,
    {
        entry.hwnd.push(handles[i]);
        assert(handles@.take(i as int + 1) =~= handles@.take(i as int).push(handles@[i as int]));
        i += 1;
    }
    assert(handles@.take(handles@.len() as int) =~= handles@);
}

/// Assigns the live windows to the entries of a profile: each live window,
/// in order, gives its handles to the first entry that takes it, and to none
/// if no entry does.
pub fn assign_windows(profile: &mut Profile, actives: &Vec<Window>)
    ensures
        final(profile).windows@.len() == old(profile).windows@.len(),
        forall|j: int|
            0 <= j < old(profile).windows@.len() ==> same_description(
                #[trigger] final(profile).windows@[j],
                old(profile).windows@[j],
            ),
        forall|j: int|
            0 <= j < old(profile).windows@.len() ==> (#[trigger] final(profile).windows@[j]).hwnd@
                == assigned_handles(old(profile).windows@, actives@, actives@.len() as int)[j],
{
    let ghost entries = profile.windows@;
    let mut i: usize = 0;
    proof {
        lemma_assigned_handles_len(entries, actives@, 0);
    }
    while i < actives.len()
        invariant
            i <= actives.len(),
            entries == old(profile).windows@,
            profile.windows@.len() == entries.len(),
            forall|j: int|
                0 <= j < entries.len() ==> same_description(
                    #[trigger] profile.windows@[j],
                    entries[j],
                ),
            forall|j: int|
                0 <= j < entries.len() ==> (#[trigger] profile.windows@[j]).hwnd@
                    == assigned_handles(entries, actives@, i as int)[j],
        decreases actives.len() - i,
    {
        let active = &actives[i];
        proof {
            lemma_taking_goes_by_description(profile.windows@, entries, *active, 0);
            lemma_assigned_handles_len(entries, actives@, i as int);
            lemma_assigned_handles_len(entries, actives@, i as int + 1);
        }
        match find_entry(&profile.windows, active) {
            Some(at) => {
                let ghost before = profile.windows@;
                add_handles(&mut profile.windows[at], &active.hwnd);
                assert forall|j: int| 0 <= j < entries.len() implies (
                #[trigger] profile.windows@[j]).hwnd@ == assigned_handles(
                    entries,
                    actives@,
                    i as int + 1,
                )[j] by {
                    if j != at {
                        assert(profile.windows@[j] == before[j]);
                    }
                }
                assert forall|j: int| 0 <= j < entries.len() implies same_description(
                    #[trigger] profile.windows@[j],
                    entries[j],
                ) by {
                    if j != at {
                        assert(profile.windows@[j] == before[j]);
                    }
                }
            },
            None => {},
        }
        i += 1;
    }
}

/// Which entry takes a live window depends on the descriptions of the
/// entries alone, not on the handles they hold.
proof fn lemma_taking_goes_by_description(
    now: Seq<Window>,
    entries: Seq<Window>,
    active: Window,
    from: int,
)
    requires
        0 <= from,
        now.len() == entries.len(),
        forall|j: int| 0 <= j < entries.len() ==> same_description(#[trigger] now[j], entries[j]),
    ensures
        first_taking(now, active, from) == first_taking(entries, active, from),
    decreases entries.len() - from,
{
    if from < entries.len() {
        assert(same_description(now[from], entries[from]));
        lemma_taking_goes_by_description(now, entries, active, from + 1);
    }
}

/// The update that an entry asks of one of its windows: its location unless
/// it has none, and its dimensions unless it has none. What it has not is
/// skipped, and stands as 0 in the update.
pub open spec fn request(hwnd: WindowHandle, window: Window) -> ResolvedUpdate {
    ResolvedUpdate {
        handle: hwnd,
        x: match window.location {
            Some(location) => location.x,
            None => 0,
        },
        y: match window.location {
            Some(location) => location.y,
            None => 0,
        },
        width: match window.dimensions {
            Some(dimensions) => dimensions.width,
            None => 0,
        },
        height: match window.dimensions {
            Some(dimensions) => dimensions.height,
            None => 0,
        },
        skip_move: window.location is None,
        skip_resize: window.dimensions is None,
        state: StateFlags {
            minimized: false,
            maximized: false,
            maximized_horizontal: false,
            maximized_vertical: false,
        },
    }
}

/// Makes the update that `window` asks of the live window `hwnd`.
pub fn apply_profile_properties(hwnd: WindowHandle, window: &Window) -> (update: ResolvedUpdate)
    ensures
        update == request(hwnd, *window),
{
    let (x, y) = match &window.location {
        Some(location) => (location.x, location.y),
        None => (0, 0),
    };
    let (width, height) = match &window.dimensions {
        Some(dimensions) => (dimensions.width, dimensions.height),
        None => (0, 0),
    };
    ResolvedUpdate {
        handle: hwnd,
        x,
        y,
        width,
        height,
        skip_move: window.location.is_none(),
        skip_resize: window.dimensions.is_none(),
        state: StateFlags::none(),
    }
}

/// Whether the windows of an entry are fanned out: it allows it, it has a
/// location, and it names a process.
pub open spec fn fans(window: Window) -> bool {
    window.allow_cascade && window.location is Some && window.process is Some
}

/// The updates for the handles of one entry from position `from` on, with
/// the cascade in `state`, and the state of the cascade after them; `None`
/// when a position is out of range.
pub open spec fn entry_updates(
    window: Window,
    from: int,
    state: Map<Seq<char>, Point>,
) -> Option<(Seq<ResolvedUpdate>, Map<Seq<char>, Point>)>
    decreases window.hwnd@.len() - from,
{
    if from < 0 || from >= window.hwnd@.len() {
        Some((Seq::empty(), state))
    } else if fans(window) {
        let process = window.process.unwrap()@;
        if can_place(state, process) {
            let wanted = window.location.unwrap();
            let position = next_position(state, process, Point { x: wanted.x, y: wanted.y });
            let update = ResolvedUpdate {
                x: position.x,
                y: position.y,
                ..request(window.hwnd@[from], window)
            };
            match entry_updates(window, from + 1, state.insert(process, position)) {
                Some((rest, end)) => Some((seq![update] + rest, end)),
                None => None,
            }
        } else {
            None
        }
    } else {
        match entry_updates(window, from + 1, state) {
            Some((rest, end)) => Some((seq![request(window.hwnd@[from], window)] + rest, end)),
            None => None,
        }
    }
}

/// The updates for the entries from position `from` on, with the cascade in
/// `state`; `None` when a position is out of range.
pub open spec fn profile_updates(
    windows: Seq<Window>,
    from: int,
    state: Map<Seq<char>, Point>,
) -> Option<Seq<ResolvedUpdate>>
    decreases windows.len() - from,
{
    if from < 0 || from >= windows.len() {
        Some(Seq::empty())
    } else {
        match entry_updates(windows[from], 0, state) {
            Some((first, next)) => match profile_updates(windows, from + 1, next) {
                Some(rest) => Some(first + rest),
                None => None,
            },
            None => None,
        }
    }
}

/// `done`, followed by what is still to come.
pub open spec fn then(done: Seq<ResolvedUpdate>, rest: Option<Seq<ResolvedUpdate>>) -> Option<
    Seq<ResolvedUpdate>,
> {
    match rest {
        Some(rest) => Some(done + rest),
        None => None,
    }
}

/// `done`, followed by what is still to come of one entry.
pub open spec fn then_entry(
    done: Seq<ResolvedUpdate>,
    rest: Option<(Seq<ResolvedUpdate>, Map<Seq<char>, Point>)>,
) -> Option<(Seq<ResolvedUpdate>, Map<Seq<char>, Point>)> {
    match rest {
        Some((rest, end)) => Some((done + rest, end)),
        None => None,
    }
}

/// Makes the updates of a profile: one for each handle of each entry, in
/// order.
///
/// Where an entry allows cascading, has a location and names a process, the
/// first window of that process gets the location and each further one is
/// put 30 pixels right of and below the one before. The result is
/// `PositionOutOfRange` when such a position cannot be represented.
pub fn apply_profile(profile: &Profile) -> (outcome: Result<Vec<ResolvedUpdate>, Error>)
    ensures
        match profile_updates(profile.windows@, 0, Map::empty()) {
            Some(updates) => outcome matches Ok(list) && list@ == updates,
            None => outcome == Err::<Vec<ResolvedUpdate>, Error>(Error::PositionOutOfRange),
        },
{
    let mut cascade = CascadeAllocator::new();
    let mut updates: Vec<ResolvedUpdate> = Vec::new();
    let mut i: usize = 0;
    while i < profile.windows.len()
        invariant
            i <= profile.windows.len(),
            profile_updates(profile.windows@, 0, Map::empty()) == then(
                updates@,
                profile_updates(profile.windows@, i as int, cascade@),
            ),
        decreases profile.windows.len() - i,
    {
        let window = &profile.windows[i];
        let ghost before = updates@;
        let ghost start = cascade@;
        let mut k: usize = 0;
        assert(before + Seq::<ResolvedUpdate>::empty() =~= before);
        while k < window.hwnd.len()
            invariant
                k <= window.hwnd.len(),
                i < profile.windows@.len(),
                window == profile.windows@[i as int],
                profile_updates(profile.windows@, 0, Map::empty()) == then(
                    before,
                    profile_updates(profile.windows@, i as int, start),
                ),
                updates@.len() >= before.len(),
                updates@.take(before.len() as int) == before,
                entry_updates(*window, 0, start) == then_entry(
                    updates@.skip(before.len() as int),
                    entry_updates(*window, k as int, cascade@),
                ),
            decreases window.hwnd.len() - k,
        {
            let base = apply_profile_properties(window.hwnd[k], window);
            let ghost done = updates@.skip(before.len() as int);
            let update = if window.allow_cascade && window.location.is_some()
                && window.process.is_some() {
                let wanted = window.location.unwrap();
                let process = window.process.as_ref().unwrap();
                match cascade.try_place(process.as_str(), Point { x: wanted.x, y: wanted.y }) {
                    Some(position) => ResolvedUpdate { x: position.x, y: position.y, ..base },
                    None => {
                        return Err(Error::PositionOutOfRange);
                    },
                }
            } else {
                base
            };
            updates.push(update);
            proof {
                let rest = entry_updates(*window, k as int + 1, cascade@);
                assert(updates@.skip(before.len() as int) =~= done.push(update));
                assert(updates@.take(before.len() as int) =~= before);
                if rest is Some {
                    assert(done.push(update) + rest.unwrap().0 =~= done + (seq![update]
                        + rest.unwrap().0));
                }
            }
            k += 1;
        }
        proof {
            let first = updates@.skip(before.len() as int);
            assert(first + Seq::<ResolvedUpdate>::empty() =~= first);
            assert(updates@ =~= before + first);
            let rest = profile_updates(profile.windows@, i as int + 1, cascade@);
            if rest is Some {
                assert(updates@ + rest.unwrap() =~= before + (first + rest.unwrap()));
            }
        }
        i += 1;
    }
    assert(updates@ + Seq::<ResolvedUpdate>::empty() =~= updates@);
    Ok(updates)
}

/// The positions that the windows of one entry get, from the handle at
/// `from` on, if the entry fans out for `process`; none otherwise.
pub open spec fn entry_positions(
    window: Window,
    from: int,
    state: Map<Seq<char>, Point>,
    process: Seq<char>,
) -> Seq<Point>
    decreases window.hwnd@.len() - from,
{
    if from < 0 || from >= window.hwnd@.len() || !fans(window) || window.process.unwrap()@
        != process || !can_place(state, process) {
        Seq::empty()
    } else {
        let wanted = window.location.unwrap();
        let position = next_position(state, process, Point { x: wanted.x, y: wanted.y });
        seq![position] + entry_positions(window, from + 1, state.insert(process, position), process)
    }
}

/// The positions that one pass over a profile gives, in order, to the
/// windows of the entries that fan out for `process`.
pub open spec fn profile_positions(
    windows: Seq<Window>,
    from: int,
    state: Map<Seq<char>, Point>,
    process: Seq<char>,
) -> Seq<Point>
    decreases windows.len() - from,
{
    if from < 0 || from >= windows.len() {
        Seq::empty()
    } else {
        let first = entry_positions(windows[from], 0, state, process);
        match entry_updates(windows[from], 0, state) {
            Some((_, next)) => first + profile_positions(windows, from + 1, next, process),
            None => first,
        }
    }
}

/// Positions that begin where the cascade for `process` stands in `state`:
/// if the process has a last position, the first of them follows it by the
/// delta.
pub open spec fn follows(state: Map<Seq<char>, Point>, process: Seq<char>, positions: Seq<Point>) -> bool {
    state.contains_key(process) && positions.len() > 0 ==> {
        &&& positions[0].x == state[process].x + CASCADE_DELTA
        &&& positions[0].y == state[process].y + CASCADE_DELTA
    }
}

/// Where the cascade for `process` stands after `positions` were given out
/// from `state`: at the last of them, or where it stood if there are none.
pub open spec fn stands(
    state: Map<Seq<char>, Point>,
    process: Seq<char>,
    positions: Seq<Point>,
    end: Map<Seq<char>, Point>,
) -> bool {
    if positions.len() > 0 {
        end.contains_key(process) && end[process] == positions.last()
    } else {
        end.contains_key(process) == state.contains_key(process) && (state.contains_key(process)
            ==> end[process] == state[process])
    }
}

proof fn lemma_entry_chain(
    window: Window,
    from: int,
    state: Map<Seq<char>, Point>,
    process: Seq<char>,
)
    requires
        0 <= from,
    ensures
        fans_out(entry_positions(window, from, state, process)),
        follows(state, process, entry_positions(window, from, state, process)),
        entry_updates(window, from, state) matches Some((_, end)) ==> stands(
            state,
            process,
            entry_positions(window, from, state, process),
            end,
        ),
    decreases window.hwnd@.len() - from,
{
    if from < window.hwnd@.len() {
        if fans(window) {
            let key = window.process.unwrap()@;
            if can_place(state, key) {
                let wanted = window.location.unwrap();
                let position = next_position(state, key, Point { x: wanted.x, y: wanted.y });
                let next = state.insert(key, position);
                lemma_entry_chain(window, from + 1, next, process);
                if key == process {
                    let rest = entry_positions(window, from + 1, next, process);
                    let all = seq![position] + rest;
                    assert(all =~= entry_positions(window, from, state, process));
                    assert forall|k: int| 1 <= k < all.len() implies {
                        &&& (#[trigger] all[k]).x == all[k - 1].x + CASCADE_DELTA
                        &&& all[k].y == all[k - 1].y + CASCADE_DELTA
                    } by {
                        if k > 1 {
                            assert(all[k] == rest[k - 1]);
                            assert(all[k - 1] == rest[k - 2]);
                        }
                    }
                    if rest.len() > 0 {
                        assert(all.last() == rest.last());
                    }
                } else {
                    assert(next.contains_key(process) == state.contains_key(process));
                }
            }
        } else {
            lemma_entry_chain(window, from + 1, state, process);
        }
    }
}

proof fn lemma_profile_chain(
    windows: Seq<Window>,
    from: int,
    state: Map<Seq<char>, Point>,
    process: Seq<char>,
)
    requires
        0 <= from,
    ensures
        fans_out(profile_positions(windows, from, state, process)),
        follows(state, process, profile_positions(windows, from, state, process)),
    decreases windows.len() - from,
{
    if from < windows.len() {
        let first = entry_positions(windows[from], 0, state, process);
        lemma_entry_chain(windows[from], 0, state, process);
        match entry_updates(windows[from], 0, state) {
            Some((_, next)) => {
                lemma_profile_chain(windows, from + 1, next, process);
                let rest = profile_positions(windows, from + 1, next, process);
                let all = first + rest;
                assert forall|k: int| 1 <= k < all.len() implies {
                    &&& (#[trigger] all[k]).x == all[k - 1].x + CASCADE_DELTA
                    &&& all[k].y == all[k - 1].y + CASCADE_DELTA
                } by {
                    if k < first.len() {
                        assert(all[k] == first[k]);
                        assert(all[k - 1] == first[k - 1]);
                    } else if k == first.len() {
                        assert(all[k] == rest[0]);
                        assert(all[k - 1] == first.last());
                    } else {
                        assert(all[k] == rest[k - first.len()]);
                        assert(all[k - 1] == rest[k - first.len() - 1]);
                    }
                }
                if first.len() == 0 {
                    assert(all =~= rest);
                }
            },
            None => {},
        }
    }
}

/// Within one pass over a profile, of the windows of the entries that fan
/// out for one process, each but the first is put 30 pixels right of and 30
/// pixels below the one before it.
pub proof fn lemma_profile_fans_out(windows: Seq<Window>, process: Seq<char>)
    ensures
        fans_out(profile_positions(windows, 0, Map::empty(), process)),
{
    lemma_profile_chain(windows, 0, Map::empty(), process);
}

} // verus!
