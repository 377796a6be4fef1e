//! Live windows with their bounds and monitor, and the resolution of a
//! layout entry against one of them.

use vstd::prelude::*;
use crate::Point;
use crate::geometry::{resolve_against, resolve_value};
use crate::layout::{Screen, Window};
use crate::pattern::{
    accepted, accepts, pattern_compiles, pattern_found, probe, probe_of, Probe,
};
use crate::resolved::{MonitorHandle, ResolvedUpdate, StateFlags, WindowHandle};
use crate::text::{basename, basename_of, decimal, str_eq, to_decimal};

verus! {

/// The four edges of a rectangle on the desktop, as platforms report them.
#[derive(Debug, Clone, Copy, PartialEq, Eq, Structural)]
pub struct Rect {
    pub left: i32,
    pub top: i32,
    pub right: i32,
    pub bottom: i32,
}

/// A rectangle on the desktop, given by its edges.
#[derive(Debug, Clone, Copy, PartialEq, Eq, Structural)]
pub struct Rectangle(pub Rect);

impl Rectangle {
    /// The distance from the left edge to the right one.
    pub open spec fn spec_width(self) -> int {
        self.0.right - self.0.left
    }

    /// The distance from the top edge to the bottom one.
    pub open spec fn spec_height(self) -> int {
        self.0.bottom - self.0.top
    }

    /// The width and the height are each within the range of `i32`.
    pub open spec fn wf(self) -> bool {
        &&& i32::MIN <= self.spec_width() <= i32::MAX
        &&& i32::MIN <= self.spec_height() <= i32::MAX
    }

    /// The rectangle of the given size whose upper left corner is at
    /// `(x, y)`.
    pub fn new(x: i32, y: i32, width: i32, height: i32) -> (r: Self)
        requires
            i32::MIN <= x + width <= i32::MAX,
            i32::MIN <= y + height <= i32::MAX,
        ensures
            r.0.left == x,
            r.0.top == y,
            r.0.right == x + width,
            r.0.bottom == y + height,
            r.wf(),
    {
        Rectangle(Rect { left: x, top: y, right: x + width, bottom: y + height })
    }

    /// Returns the upper left point of the `Rectangle`.
    pub fn origin(&self) -> (p: Point)
        ensures
            p.x == self.0.left,
            p.y == self.0.top,
    {
        Point { x: self.0.left, y: self.0.top }
    }

    /// The distance from the left edge to the right one.
    pub fn width(&self) -> (w: i32)
        requires
            i32::MIN <= self.spec_width() <= i32::MAX,
        ensures
            w == self.spec_width(),
    {
        self.0.right - self.0.left
    }

    /// The distance from the top edge to the bottom one.
    pub fn height(&self) -> (h: i32)
        requires
            i32::MIN <= self.spec_height() <= i32::MAX,
        ensures
            h == self.spec_height(),
    {
        self.0.bottom - self.0.top
    }

    /// How a rectangle is written: its size in brackets, an `@`, and its
    /// upper left corner.
    pub open spec fn written(self) -> Seq<char> {
        "["@ + decimal(self.spec_width()) + "x"@ + decimal(self.spec_height()) + "] @ "@ + (Point {
            x: self.0.left,
            y: self.0.top,
        }).written()
    }

    /// Writes the rectangle as `[WxH] @ (x, y)`.
    pub fn text(&self) -> (s: String)
        requires
            self.wf(),
        ensures
            s@ == self.written(),
    {
        let mut s = String::from_str("[");
        s.append(to_decimal(self.width()).as_str());
        s.append("x");
        s.append(to_decimal(self.height()).as_str());
        s.append("] @ ");
        s.append(self.origin().text().as_str());
        s
    }
}

impl Default for Rectangle {
    fn default() -> (r: Self)
        ensures
            r.0 == (Rect { left: 0, top: 0, right: 0, bottom: 0 }),
    {
        Rectangle::new(0, 0, 0, 0)
    }
}

impl From<Point> for Rectangle {
    /// The rectangle of no extent at `p`.
    fn from(p: Point) -> (r: Self) {
        Rectangle(Rect { left: p.x, top: p.y, right: p.x, bottom: p.y })
    }
}

impl vstd::std_specs::convert::FromSpecImpl<Point> for Rectangle {
    open spec fn obeys_from_spec() -> bool {
        true
    }

    open spec fn from_spec(p: Point) -> Rectangle {
        Rectangle(Rect { left: p.x, top: p.y, right: p.x, bottom: p.y })
    }
}

/// Converts a string representation of a size into pixels.
///
/// The size is a percentage (`"50%"`), taken of the width of `monitor_info`
/// and rounded to the nearest pixel, or a pixel count (`"200px"`, `"200"`).
/// A string in neither form gives 0.
pub fn into_pixels(value: &str, monitor_info: &Rectangle) -> (pixels: i32)
    ensures
        pixels == resolve_value(value@, monitor_info.spec_width()),
{
    resolve_against(value, monitor_info.0.left, monitor_info.0.right)
}

/// A window as the platform reports it: its handle, the monitor it is on, its
/// bounds, and a description of it.
#[derive(Debug, PartialEq)]
pub struct Win32Window {
    pub hwnd: WindowHandle,
    pub monitor: MonitorHandle,
    pub rect: Rectangle,
    pub window: Window,
}

/// A monitor as the platform reports it: its handle, its device name, its
/// full rectangle and its work area.
#[derive(Debug, PartialEq)]
pub struct Win32Monitor {
    pub hmonitor: MonitorHandle,
    pub name: String,
    pub monitor: Rectangle,
    pub work: Rectangle,
}

/// The pixel value of one axis: what the entry asks for, resolved against the
/// monitor's width, or the window's present value where the entry is silent.
pub open spec fn resolved_axis(value: Option<String>, present: i32, extent: int) -> i32 {
    match value {
        Some(v) => resolve_value(v@, extent) as i32,
        None => present,
    }
}

/// The state changes that an entry asks for: each flag that the entry holds,
/// whatever its value.
pub open spec fn state_of(entry: Window) -> StateFlags {
    StateFlags {
        minimized: entry.minimized is Some,
        maximized: entry.maximized is Some,
        maximized_horizontal: entry.maximized_horizontal is Some,
        maximized_vertical: entry.maximized_vertical is Some,
    }
}

/// The update that `entry` asks of the window `handle`, whose bounds are
/// `rect`, on a monitor whose work area is `work_area`.
///
/// Percentages of every axis are taken of the work area's width. The move is
/// skipped when the entry has neither `x` nor `y`, the resize when it has
/// neither `w` nor `h`.
pub open spec fn resolve(
    entry: Window,
    handle: WindowHandle,
    rect: Rectangle,
    work_area: Rectangle,
) -> ResolvedUpdate {
    let extent = work_area.spec_width();
    ResolvedUpdate {
        handle,
        x: resolved_axis(entry.x, rect.0.left, extent),
        y: resolved_axis(entry.y, rect.0.top, extent),
        width: resolved_axis(entry.w, rect.spec_width() as i32, extent),
        height: resolved_axis(entry.h, rect.spec_height() as i32, extent),
        skip_move: entry.x is None && entry.y is None,
        skip_resize: entry.w is None && entry.h is None,
        state: state_of(entry),
    }
}

fn axis_pixels(value: &Option<String>, present: i32, work_area: &Rectangle) -> (pixels: i32)
    ensures
        pixels == resolved_axis(*value, present, work_area.spec_width()),
{
    match value {
        Some(v) => into_pixels(v.as_str(), work_area),
        None => present,
    }
}

impl Win32Window {
    /// Resolves the window's own description against its bounds and the work
    /// area of its monitor.
    pub fn update(&self, work_area: &Rectangle) -> (update: ResolvedUpdate)
        requires
            self.rect.wf(),
        ensures
            update == resolve(self.window, self.hwnd, self.rect, *work_area),
    {
        let origin = self.rect.origin();
        ResolvedUpdate {
            handle: self.hwnd,
            x: axis_pixels(&self.window.x, origin.x, work_area),
            y: axis_pixels(&self.window.y, origin.y, work_area),
            width: axis_pixels(&self.window.w, self.rect.width(), work_area),
            height: axis_pixels(&self.window.h, self.rect.height(), work_area),
            skip_move: self.window.x.is_none() && self.window.y.is_none(),
            skip_resize: self.window.w.is_none() && self.window.h.is_none(),
            state: StateFlags {
                minimized: self.window.minimized.is_some(),
                maximized: self.window.maximized.is_some(),
                maximized_horizontal: self.window.maximized_horizontal.is_some(),
                maximized_vertical: self.window.maximized_vertical.is_some(),
            },
        }
    }

    /// Takes `layout` as the window's description and resolves it.
    pub fn layout(&mut self, layout: &Window, work_area: &Rectangle) -> (update: ResolvedUpdate)
        requires
            old(self).rect.wf(),
        ensures
            final(self).window == *layout,
            final(self).hwnd == old(self).hwnd,
            final(self).monitor == old(self).monitor,
            final(self).rect == old(self).rect,
            update == resolve(*layout, old(self).hwnd, old(self).rect, *work_area),
    {
        self.window = layout.clone();
        self.update(work_area)
    }
}

/// Whether a live window satisfies a layout entry.
///
/// An entry with both patterns asks for both; an entry with one asks for that
/// one; an entry with neither is satisfied by nothing, and so is one that
/// holds an invalid pattern. A window without a title satisfies no title
/// pattern, and likewise for the process.
pub open spec fn satisfies(window: Win32Window, entry: Window) -> bool {
    accepted(
        probe_of(entry.title, window.window.title),
        probe_of(entry.process, window.window.process),
    )
}

/// Whether an entry holds a pattern that is not a valid regular expression.
pub open spec fn has_invalid_pattern(entry: Window) -> bool {
    ||| entry.title matches Some(title) && !pattern_compiles(title@)
    ||| entry.process matches Some(process) && !pattern_compiles(process@)
}

/// The least index `>= from` of a window that satisfies `entry`, or the
/// number of windows when there is none.
pub open spec fn first_satisfying(windows: Seq<Win32Window>, entry: Window, from: int) -> int
    decreases windows.len() - from,
{
    if from >= windows.len() {
        windows.len() as int
    } else if satisfies(windows[from], entry) {
        from
    } else {
        first_satisfying(windows, entry, from + 1)
    }
}

/// The window that an entry binds: the first one, in the order of the
/// snapshot, that satisfies it.
pub open spec fn binding(windows: Seq<Win32Window>, entry: Window) -> Option<int> {
    let at = first_satisfying(windows, entry, 0);
    if at < windows.len() {
        Some(at)
    } else {
        None
    }
}

/// Decides whether `window` satisfies `entry`.
pub fn is_match(window: &Win32Window, entry: &Window) -> (yes: bool)
    ensures
        yes == satisfies(*window, *entry),
{
    let title = probe(&entry.title, &window.window.title);
    let process = probe(&entry.process, &window.window.process);
    accepts(title, process)
}

/// Whether an entry can bind a window at all: it has a pattern, and every
/// pattern it has is valid.
pub fn can_bind(entry: &Window) -> (yes: bool)
    ensures
        yes == ((entry.title is Some || entry.process is Some) && !has_invalid_pattern(*entry)),
        !yes ==> forall|window: Win32Window| !satisfies(window, *entry),
{
    let nothing: Option<String> = None;
    let title = probe(&entry.title, &nothing);
    let process = probe(&entry.process, &nothing);
    title != Probe::Invalid && process != Probe::Invalid && !(title == Probe::Unasked && process
        == Probe::Unasked)
}

/// The first index `>= from` that satisfies `entry` is `at`, given that none
/// before `at` does and `at` itself does (or is the end).
proof fn lemma_first_satisfying(windows: Seq<Win32Window>, entry: Window, from: int, at: int)
    requires
        0 <= from <= at <= windows.len(),
        forall|i: int| from <= i < at ==> !satisfies(windows[i], entry),
        at < windows.len() ==> satisfies(windows[at], entry),
    ensures
        first_satisfying(windows, entry, from) == at,
    decreases at - from,
{
    if from < at {
        lemma_first_satisfying(windows, entry, from + 1, at);
    }
}

/// Finds the window that `win` binds: the first window of the snapshot that
/// satisfies it. An entry without a pattern, or with an invalid one, binds
/// none.
pub fn find_match(windows: &Vec<Win32Window>, win: &Window) -> (found: Option<usize>)
    ensures
        found matches Some(at) ==> at < windows.len(),
        match found {
            Some(at) => binding(windows@, *win) == Some(at as int),
            None => binding(windows@, *win) is None,
        },
{
    if !can_bind(win) {
        proof {
            lemma_first_satisfying(windows@, *win, 0, windows@.len() as int);
        }
        return None;
    }
    let mut i: usize = 0;
    while i < windows.len()
        invariant
            i <= windows.len(),
            forall|k: int| 0 <= k < i ==> !satisfies(windows[k], *win),
        decreases windows.len() - i,
    {
        if is_match(&windows[i], win) {
            proof {
                lemma_first_satisfying(windows@, *win, 0, i as int);
            }
            return Some(i);
        }
        i += 1;
    }
    proof {
        lemma_first_satisfying(windows@, *win, 0, windows@.len() as int);
    }
    None
}

/// An entry without any pattern binds no window.
pub proof fn lemma_patternless_binds_nothing(windows: Seq<Win32Window>, entry: Window)
    requires
        entry.title is None,
        entry.process is None,
    ensures
        binding(windows, entry) is None,
{
    lemma_binding_is_first(windows, entry);
}

/// The window that an entry binds satisfies it, and no window before it does.
pub proof fn lemma_binding_is_first(windows: Seq<Win32Window>, entry: Window)
    ensures
        match binding(windows, entry) {
            Some(at) => {
                &&& 0 <= at < windows.len()
                &&& satisfies(windows[at], entry)
                &&& forall|i: int| 0 <= i < at ==> !satisfies(windows[i], entry)
            },
            None => forall|i: int| 0 <= i < windows.len() ==> !satisfies(windows[i], entry),
        },
{
    lemma_first_satisfying_is_first(windows, entry, 0);
}

proof fn lemma_first_satisfying_is_first(windows: Seq<Win32Window>, entry: Window, from: int)
    requires
        0 <= from,
    ensures
        from <= first_satisfying(windows, entry, from) || windows.len() <= from,
        first_satisfying(windows, entry, from) <= windows.len() || windows.len() <= from,
        first_satisfying(windows, entry, from) < windows.len() ==> satisfies(
            windows[first_satisfying(windows, entry, from)],
            entry,
        ),
        forall|i: int|
            from <= i < first_satisfying(windows, entry, from) && i < windows.len() ==> !satisfies(
                windows[i],
                entry,
            ),
    decreases windows.len() - from,
{
    if from < windows.len() && !satisfies(windows[from], entry) {
        lemma_first_satisfying_is_first(windows, entry, from + 1);
    }
}

/// An entry that has only a title pattern never binds a window in whose title
/// the pattern is not found.
pub proof fn lemma_title_only_needs_title(windows: Seq<Win32Window>, entry: Window, at: int)
    requires
        entry.title is Some,
        entry.process is None,
        0 <= at < windows.len(),
        !(windows[at].window.title matches Some(title) && pattern_found(
            entry.title.unwrap()@,
            title@,
        )),
    ensures
        binding(windows, entry) != Some(at),
{
    lemma_binding_is_first(windows, entry);
}

/// An entry that holds an invalid pattern binds no window.
pub proof fn lemma_invalid_binds_nothing(windows: Seq<Win32Window>, entry: Window)
    requires
        has_invalid_pattern(entry),
    ensures
        binding(windows, entry) is None,
{
    lemma_binding_is_first(windows, entry);
}

/// Every resolved value is a pixel count from 0 to `i32::MAX`.
pub proof fn lemma_resolved_value_in_range(value: Seq<char>, extent: int)
    ensures
        0 <= resolve_value(value, extent) <= i32::MAX,
{
    let p = crate::geometry::first_percent(value, 0);
    if p < value.len() {
        let percent = crate::geometry::digits_value(
            value.subrange(crate::geometry::run_start(value, p), p),
        );
        assert(crate::geometry::abs(extent) * percent >= 0) by (nonlinear_arith)
            requires
                crate::geometry::abs(extent) >= 0,
                percent >= 0,
        ;
    }
}

/// An entry with neither `x` nor `y` leaves the window where it is: the move
/// is skipped, and the position in the update is the one the window has. So
/// resolving the entry again, after the update was applied, gives the same
/// position.
pub proof fn lemma_omitted_position_is_kept(
    entry: Window,
    handle: WindowHandle,
    rect: Rectangle,
    work_area: Rectangle,
)
    requires
        entry.x is None,
        entry.y is None,
    ensures
        resolve(entry, handle, rect, work_area).skip_move,
        resolve(entry, handle, rect, work_area).x == rect.0.left,
        resolve(entry, handle, rect, work_area).y == rect.0.top,
        forall|moved: Rectangle|
            moved.0.left == rect.0.left && moved.0.top == rect.0.top ==> {
                &&& (#[trigger] resolve(entry, handle, moved, work_area)).x == resolve(
                    entry,
                    handle,
                    rect,
                    work_area,
                ).x
                &&& resolve(entry, handle, moved, work_area).y == resolve(
                    entry,
                    handle,
                    rect,
                    work_area,
                ).y
            },
{
}

/// An entry with neither `w` nor `h` leaves the window's size alone.
pub proof fn lemma_omitted_size_is_kept(
    entry: Window,
    handle: WindowHandle,
    rect: Rectangle,
    work_area: Rectangle,
)
    requires
        entry.w is None,
        entry.h is None,
        rect.wf(),
    ensures
        resolve(entry, handle, rect, work_area).skip_resize,
        resolve(entry, handle, rect, work_area).width == rect.spec_width(),
        resolve(entry, handle, rect, work_area).height == rect.spec_height(),
{
}

impl Win32Window {
    /// A live window as the platform describes it: its title, the program
    /// that owns it, and its bounds, written out in decimal. Of the path of
    /// the program only the last part is kept, as it is written.
    pub fn new(
        hwnd: WindowHandle,
        monitor: MonitorHandle,
        title: String,
        process: String,
        rect: Rectangle,
    ) -> (window: Self)
        requires
            rect.wf(),
        ensures
            window.hwnd == hwnd,
            window.monitor == monitor,
            window.rect == rect,
            window.window.title == Some(title),
            window.window.process matches Some(name) && name@ == basename_of(process@),
            window.window.x matches Some(x) && x@ == decimal(rect.0.left as int),
            window.window.y matches Some(y) && y@ == decimal(rect.0.top as int),
            window.window.w matches Some(w) && w@ == decimal(rect.spec_width()),
            window.window.h matches Some(h) && h@ == decimal(rect.spec_height()),
            window.window.z is None,
            window.window.maximized is None,
            window.window.maximized_vertical is None,
            window.window.maximized_horizontal is None,
            window.window.minimized is None,
            window.window.allow_cascade,
    {
        let origin = rect.origin();
        let mut described = Window::new();
        described.title = Some(title);
        described.process = Some(basename(process.as_str()));
        described.x = Some(to_decimal(origin.x));
        described.y = Some(to_decimal(origin.y));
        described.w = Some(to_decimal(rect.width()));
        described.h = Some(to_decimal(rect.height()));
        Win32Window { hwnd, monitor, rect, window: described }
    }
}

impl Default for Win32Window {
    /// What the platform says of the window that no handle names: no title,
    /// no program, and bounds of nothing at the origin.
    fn default() -> (window: Self)
        ensures
            window.hwnd == WindowHandle(0),
            window.monitor == MonitorHandle(0),
            window.rect.0 == (Rect { left: 0, top: 0, right: 0, bottom: 0 }),
            window.window.title matches Some(title) && title@.len() == 0,
            window.window.process matches Some(process) && process@ == basename_of(
                Seq::<char>::empty(),
            ),
            window.window.x matches Some(x) && x@ == decimal(0),
            window.window.y matches Some(y) && y@ == decimal(0),
            window.window.w matches Some(w) && w@ == decimal(0),
            window.window.h matches Some(h) && h@ == decimal(0),
            window.window.z is None,
            window.window.maximized is None,
            window.window.maximized_vertical is None,
            window.window.maximized_horizontal is None,
            window.window.minimized is None,
            window.window.allow_cascade,
    {
        Win32Window::new(
            WindowHandle(0),
            MonitorHandle(0),
            String::new(),
            String::new(),
            Rectangle::new(0, 0, 0, 0),
        )
    }
}

impl Clone for Win32Window {
    fn clone(&self) -> (copy: Self)
        ensures
            copy == *self,
    {
        Win32Window {
            hwnd: self.hwnd,
            monitor: self.monitor,
            rect: self.rect,
            window: self.window.clone(),
        }
    }
}

/// The extended style bit of a window with a raised edge.
pub const WS_EX_WINDOWEDGE: u32 = 0x100;

/// The extended style bit of a tool window.
pub const WS_EX_TOOLWINDOW: u32 = 0x80;

/// The program whose windows without a title are left out of a listing.
pub const SHELL_PROCESS: &'static str = "explorer.exe";

/// Whether a window belongs in a listing: it is visible, has a raised edge,
/// is no tool window and is not cloaked; and a window of the shell has a
/// title besides.
pub open spec fn is_listed(
    visible: bool,
    ex_style: u32,
    cloaked: bool,
    title: Seq<char>,
    process: Seq<char>,
) -> bool {
    &&& visible
    &&& ex_style & WS_EX_WINDOWEDGE != 0
    &&& ex_style & WS_EX_TOOLWINDOW == 0
    &&& !cloaked
    &&& basename_of(process) == SHELL_PROCESS@ ==> title.len() > 0
}

/// Decides whether a window belongs in a listing, from what the platform
/// says of it: whether it is visible, its extended style, whether it is
/// cloaked, its title and the path of the program that owns it.
pub fn check_valid_window(
    visible: bool,
    ex_style: u32,
    cloaked: bool,
    title: &str,
    process: &str,
) -> (listed: bool)
    ensures
        listed == is_listed(visible, ex_style, cloaked, title@, process@),
{
    let is_visible_on_screen = (ex_style & WS_EX_WINDOWEDGE) != 0;
    let is_toolwindow = (ex_style & WS_EX_TOOLWINDOW) != 0;
    if visible && is_visible_on_screen && !is_toolwindow && !cloaked {
        let window_process = basename(process);
        if str_eq(window_process.as_str(), SHELL_PROCESS) {
            !title.is_empty()
        } else {
            true
        }
    } else {
        false
    }
}

/// The position of the first monitor at or after `from` that goes by
/// `handle`, or the number of monitors when none does.
pub open spec fn monitor_index(monitors: Seq<Win32Monitor>, handle: MonitorHandle, from: int) -> int
    decreases monitors.len() - from,
{
    if from >= monitors.len() {
        monitors.len() as int
    } else if from >= 0 && monitors[from].hmonitor == handle {
        from
    } else {
        monitor_index(monitors, handle, from + 1)
    }
}

/// What a listing says of a window: its title, its process, its position and
/// its size.
pub open spec fn listing(window: Window) -> Window {
    Window {
        title: window.title,
        process: window.process,
        x: window.x,
        y: window.y,
        z: None,
        w: window.w,
        h: window.h,
        maximized: None,
        maximized_vertical: None,
        maximized_horizontal: None,
        minimized: None,
        allow_cascade: true,
    }
}

/// The listings of those among the first `n` windows that are on the monitor
/// at position `screen`, in order. A window is on the first monitor that goes
/// by its monitor handle.
pub open spec fn windows_on(
    windows: Seq<Win32Window>,
    monitors: Seq<Win32Monitor>,
    screen: int,
    n: int,
) -> Seq<Window>
    decreases n,
{
    if n <= 0 {
        Seq::empty()
    } else if monitor_index(monitors, windows[n - 1].monitor, 0) == screen {
        windows_on(windows, monitors, screen, n - 1).push(listing(windows[n - 1].window))
    } else {
        windows_on(windows, monitors, screen, n - 1)
    }
}

fn find_monitor(monitors: &Vec<Win32Monitor>, handle: MonitorHandle) -> (at: usize)
    ensures
        at == monitor_index(monitors@, handle, 0),
        at <= monitors.len(),
{
    let mut i: usize = 0;
    while i < monitors.len()
        invariant
            i <= monitors.len(),
            monitor_index(monitors@, handle, 0) == monitor_index(monitors@, handle, i as int),
        decreases monitors.len() - i,
    {
        if monitors[i].hmonitor == handle {
            return i;
        }
        i += 1;
    }
    monitors.len()
}

fn list_window(window: &Window) -> (listed: Window)
    ensures
        listed == listing(*window),
{
    let mut listed = Window::new();
    listed.title = window.title.clone();
    listed.process = window.process.clone();
    listed.x = window.x.clone();
    listed.y = window.y.clone();
    listed.w = window.w.clone();
    listed.h = window.h.clone();
    listed
}

/// Lists the screens, one for each monitor and numbered in their order, each
/// with the windows that are on it. A window whose monitor is not among them
/// is left out.
pub fn screens(monitors: &Vec<Win32Monitor>, windows: &Vec<Win32Window>) -> (list: Vec<Screen>)
    requires
        monitors.len() <= 256,
    ensures
        list@.len() == monitors@.len(),
        forall|i: int|
            0 <= i < list@.len() ==> {
                &&& (#[trigger] list@[i]).id == Some(i as u8)
                &&& list@[i].windows@ == windows_on(
                    windows@,
                    monitors@,
                    i,
                    windows@.len() as int,
                )
            },
{
    let mut list: Vec<Screen> = Vec::new();
    let mut m: usize = 0;
    while m < monitors.len()
        invariant
            m <= monitors.len() <= 256,
            list@.len() == m,
            forall|i: int|
                0 <= i < m ==> (#[trigger] list@[i]).id == Some(i as u8) && list@[i].windows@.len()
                    == 0,
        decreases monitors.len() - m,
    {
        let mut screen = Screen::new();
        screen.id = Some(m as u8);
        list.push(screen);
        m += 1;
    }
    let mut k: usize = 0;
    assert forall|i: int| 0 <= i < list@.len() implies (#[trigger] list@[i]).windows@ == windows_on(
        windows@,
        monitors@,
        i,
        0,
    ) by {
        assert(list@[i].windows@ =~= Seq::<Window>::empty());
    }
    while k < windows.len()
        invariant
            k <= windows.len(),
            list@.len() == monitors@.len(),
            forall|i: int|
                0 <= i < list@.len() ==> {
                    &&& (#[trigger] list@[i]).id == Some(i as u8)
                    &&& list@[i].windows@ == windows_on(windows@, monitors@, i, k as int)
                },
        decreases windows.len() - k,
    {
        let at = find_monitor(monitors, windows[k].monitor);
        if at < monitors.len() {
            let ghost before = list@;
            let listed = list_window(&windows[k].window);
            let screen = &mut list[at];
            screen.windows.push(listed);
            assert forall|i: int| 0 <= i < list@.len() implies {
                &&& (#[trigger] list@[i]).id == Some(i as u8)
                &&& list@[i].windows@ == windows_on(windows@, monitors@, i, k as int + 1)
            } by {
                if i != at {
                    assert(list@[i] == before[i]);
                }
            }
        }
        k += 1;
    }
    list
}

} // verus!
