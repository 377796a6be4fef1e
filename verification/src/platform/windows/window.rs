//! Live windows with bounds in pixels, and the application of a
//! configuration to them.

use vstd::prelude::*;
use crate::config::{first_applying, Config, Searchable, Window};
use crate::text::{basename, basename_of, text_of, text_or_empty};
use crate::resolved::{ResolvedUpdate, StateFlags, WindowHandle};

verus! {

/// A live window: its handle, what it is called, and its bounds.
#[derive(Debug, PartialEq)]
pub struct WindowState {
    pub hwnd: WindowHandle,
    pub title: Option<String>,
    pub process: Option<String>,
    pub x: Option<i32>,
    pub y: Option<i32>,
    pub w: Option<i32>,
    pub h: Option<i32>,
}

impl WindowState {
    pub fn new() -> (state: Self)
        ensures
            state.hwnd == WindowHandle(0),
            state.title is None,
            state.process is None,
            state.x is None,
            state.y is None,
            state.w is None,
            state.h is None,
    {
        WindowState {
            hwnd: WindowHandle(0),
            title: None,
            process: None,
            x: None,
            y: None,
            w: None,
            h: None,
        }
    }

    /// A live window as the platform describes it. Of the path of its
    /// program only the last part is kept.
    pub fn live(
        hwnd: WindowHandle,
        title: String,
        process: String,
        x: i32,
        y: i32,
        w: i32,
        h: i32,
    ) -> (state: Self)
        ensures
            state.hwnd == hwnd,
            state.title == Some(title),
            state.process matches Some(name) && name@ == basename_of(process@),
            state.x == Some(x),
            state.y == Some(y),
            state.w == Some(w),
            state.h == Some(h),
    {
        WindowState {
            hwnd,
            title: Some(title),
            process: Some(basename(process.as_str())),
            x: Some(x),
            y: Some(y),
            w: Some(w),
            h: Some(h),
        }
    }

    /// The description of the window, without its handle.
    pub fn into_window(self) -> (window: Window)
        ensures
            window == described(self),
    {
        Window { title: self.title, process: self.process, x: self.x, y: self.y, w: self.w, h: self.h }
    }
}

impl Clone for WindowState {
    fn clone(&self) -> (copy: Self)
        ensures
            copy == *self,
    {
        WindowState {
            hwnd: self.hwnd,
            title: self.title.clone(),
            process: self.process.clone(),
            x: self.x,
            y: self.y,
            w: self.w,
            h: self.h,
        }
    }
}

impl Searchable for WindowState {
    open spec fn title_text(&self) -> Seq<char> {
        text_of(self.title)
    }

    open spec fn process_text(&self) -> Seq<char> {
        text_of(self.process)
    }

    fn get_title(&self) -> (title: &str) {
        text_or_empty(&self.title)
    }

    fn get_process(&self) -> (process: &str) {
        text_or_empty(&self.process)
    }
}

/// The description of a live window.
pub open spec fn described(state: WindowState) -> Window {
    Window {
        title: state.title,
        process: state.process,
        x: state.x,
        y: state.y,
        w: state.w,
        h: state.h,
    }
}

/// Describes the listed windows, in order.
pub fn list_windows(config: Option<&Config>, listed: Vec<WindowState>) -> (windows: Option<
    Vec<Window>,
>)
    ensures
        windows matches Some(list) && list@ == listed@.map_values(|s: WindowState| described(s)),
{
    let mut list: Vec<Window> = Vec::new();
    let mut i: usize = 0;
    while i < listed.len()
        invariant
            i <= listed.len(),
            list@ == listed@.take(i as int).map_values(|s: WindowState| described(s)),
        decreases listed.len() - i,
    {
        let state = listed[i].clone();
        list.push(state.into_window());
        assert(listed@.take(i as int + 1).map_values(|s: WindowState| described(s)) =~= listed@.take(
            i as int,
        ).map_values(|s: WindowState| described(s)).push(described(listed@[i as int])));
        i += 1;
    }
    assert(listed@.take(listed@.len() as int) =~= listed@);
    Some(list)
}

/// Where a window is put.
#[derive(Debug, Clone, Copy, PartialEq, Eq, Structural)]
pub struct Position {
    pub x: i32,
    pub y: i32,
}

/// The value of a coordinate that may be absent: 0 when it is.
pub open spec fn or_zero(value: Option<i32>) -> i32 {
    match value {
        Some(v) => v,
        None => 0,
    }
}

/// The update that brings a window to the bounds that its state holds. The
/// move is skipped when the state has neither `x` nor `y`, the resize when it
/// has neither `w` nor `h`; a coordinate that is absent beside one that is
/// present counts as 0.
pub open spec fn request(window: WindowState) -> ResolvedUpdate {
    ResolvedUpdate {
        handle: window.hwnd,
        x: or_zero(window.x),
        y: or_zero(window.y),
        width: or_zero(window.w),
        height: or_zero(window.h),
        skip_move: window.x is None && window.y is None,
        skip_resize: window.w is None && window.h is None,
        state: StateFlags {
            minimized: false,
            maximized: false,
            maximized_horizontal: false,
            maximized_vertical: false,
        },
    }
}

fn value_or_zero(value: Option<i32>) -> (v: i32)
    ensures
        v == or_zero(value),
{
    match value {
        Some(v) => v,
        None => 0,
    }
}

/// Makes the update that brings `window` to the bounds that it holds.
pub fn apply_profile_properties(window: &WindowState) -> (update: ResolvedUpdate)
    ensures
        update == request(*window),
{
    let pos = Position { x: value_or_zero(window.x), y: value_or_zero(window.y) };
    ResolvedUpdate {
        handle: window.hwnd,
        x: pos.x,
        y: pos.y,
        width: value_or_zero(window.w),
        height: value_or_zero(window.h),
        skip_move: window.x.is_none() && window.y.is_none(),
        skip_resize: window.w.is_none() && window.h.is_none(),
        state: StateFlags::none(),
    }
}

/// The entry of `config` that applies to `state`: the first one whose
/// patterns are found in its title and process name.
pub open spec fn entry_for(config: Config, state: WindowState) -> Option<Window> {
    let at = first_applying(config.windows@, text_of(state.title), text_of(state.process), 0);
    if at < config.windows@.len() {
        Some(config.windows@[at])
    } else {
        None
    }
}

/// A live window once `config` was applied to it: with the bounds of the
/// entry that applies to it, or as it was when none does.
pub open spec fn configured(config: Config, state: WindowState) -> WindowState {
    match entry_for(config, state) {
        Some(entry) => WindowState { x: entry.x, y: entry.y, w: entry.w, h: entry.h, ..state },
        None => state,
    }
}

/// The updates for the first `n` of the live windows: one for each window to
/// which an entry applies, in order.
pub open spec fn config_updates(config: Config, states: Seq<WindowState>, n: int) -> Seq<
    ResolvedUpdate,
>
    decreases n,
{
    if n <= 0 {
        Seq::empty()
    } else if entry_for(config, states[n - 1]) is Some {
        config_updates(config, states, n - 1).push(request(configured(config, states[n - 1])))
    } else {
        config_updates(config, states, n - 1)
    }
}

/// Applies a configuration to the live windows: each window to which an
/// entry applies takes the bounds of the first such entry, and an update is
/// made for it.
pub fn apply_config(config: &Config, windows: &mut Vec<WindowState>) -> (updates: Vec<
    ResolvedUpdate,
>)
    ensures
        final(windows)@.len() == old(windows)@.len(),
        forall|i: int|
            0 <= i < old(windows)@.len() ==> (#[trigger] final(windows)@[i]) == configured(
                *config,
                old(windows)@[i],
            ),
        updates@ == config_updates(*config, old(windows)@, old(windows)@.len() as int),
{
    let mut updates: Vec<ResolvedUpdate> = Vec::new();
    let mut i: usize = 0;
    while i < windows.len()
        invariant
            i <= windows.len(),
            windows@.len() == old(windows)@.len(),
            forall|k: int|
                0 <= k < i ==> (#[trigger] windows@[k]) == configured(*config, old(windows)@[k]),
            forall|k: int| i <= k < windows@.len() ==> (#[trigger] windows@[k]) == old(windows)@[k],
            updates@ == config_updates(*config, old(windows)@, i as int),
        decreases windows.len() - i,
    {
        let found = config.search(&windows[i]);
        match found {
            Some(entry) => {
                let ghost before = windows@;
                let state = &mut windows[i];
                state.x = entry.x;
                state.y = entry.y;
                state.w = entry.w;
                state.h = entry.h;
                let update = apply_profile_properties(&windows[i]);
                updates.push(update);
                assert forall|k: int| i < k < windows@.len() implies (#[trigger] windows@[k]) == old(
                    windows,
                )@[k] by {
                    assert(windows@[k] == before[k]);
                }
                assert forall|k: int| 0 <= k < i implies (#[trigger] windows@[k]) == configured(
                    *config,
                    old(windows)@[k],
                ) by {
                    assert(windows@[k] == before[k]);
                }
            },
            None => {},
        }
        i += 1;
    }
    updates
}

/// Applies a configuration, if there is one, to the live windows.
pub fn layout_windows(config: Option<&Config>, windows: &mut Vec<WindowState>) -> (updates: Vec<
    ResolvedUpdate,
>)
    ensures
        match config {
            Some(config) => {
                &&& final(windows)@.len() == old(windows)@.len()
                &&& forall|i: int|
                    0 <= i < old(windows)@.len() ==> (#[trigger] final(windows)@[i]) == configured(
                        *config,
                        old(windows)@[i],
                    )
                &&& updates@ == config_updates(*config, old(windows)@, old(windows)@.len() as int)
            },
            None => final(windows)@ == old(windows)@ && updates@.len() == 0,
        },
{
    match config {
        Some(config) => apply_config(config, windows),
        None => Vec::new(),
    }
}

} // verus!
