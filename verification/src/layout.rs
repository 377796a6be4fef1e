//! The declarative layout: screens, and the windows wanted on each.

use vstd::prelude::*;
use crate::error::Error;
use crate::text::{str_eq, text_of, text_or_empty};
use crate::{shrink_left, shrink_right, shrunk_left, shrunk_right};

verus! {

/// The longest window title that a platform hands over, in UTF-16 units.
pub const MAX_WINDOW_TITLE_LENGTH: usize = 128;

/// The names of the formats, in their order.
pub const FORMAT_NAMES: [&'static str; 2] = ["table", "yaml"];

/// How a listing of windows is printed.
#[derive(Debug, Clone, Copy, PartialEq, Eq, Structural)]
pub enum Format {
    Table,
    Yaml,
}

impl Format {
    /// The name by which a format is chosen.
    pub open spec fn name(self) -> Seq<char> {
        match self {
            Format::Table => "table"@,
            Format::Yaml => "yaml"@,
        }
    }

    /// The format that goes by `name`, if there is one.
    pub open spec fn named(name: Seq<char>) -> Option<Format> {
        if name == "table"@ {
            Some(Format::Table)
        } else if name == "yaml"@ {
            Some(Format::Yaml)
        } else {
            None
        }
    }

    /// Returns the string representation of the `Format`.
    pub fn as_str(&self) -> (name: &'static str)
        ensures
            name@ == self.name(),
    {
        match self {
            Format::Table => "table",
            Format::Yaml => "yaml",
        }
    }

    /// What is said of a name that no format goes by.
    pub open spec fn complaint(name: Seq<char>) -> Seq<char> {
        "Failed to parse into string '"@ + name + "'"@
    }

    /// Reads a format from its name. For any other string the result is a
    /// message that quotes it.
    pub fn parse(name: &str) -> (format: Result<Format, String>)
        ensures
            match Format::named(name@) {
                Some(f) => format == Ok::<Format, String>(f),
                None => format matches Err(message) && message@ == Format::complaint(name@),
            },
    {
        if str_eq(name, "table") {
            Ok(Format::Table)
        } else if str_eq(name, "yaml") {
            Ok(Format::Yaml)
        } else {
            let mut message = String::from_str("Failed to parse into string '");
            message.append(name);
            message.append("'");
            Err(message)
        }
    }
}

impl core::str::FromStr for Format {
    type Err = String;

    /// Reads a format from its name, as [`Format::parse`] does.
    fn from_str(format: &str) -> (parsed: Result<Format, String>)
        ensures
            match Format::named(format@) {
                Some(f) => parsed == Ok::<Format, String>(f),
                None => parsed matches Err(message) && message@ == Format::complaint(format@),
            },
    {
        Format::parse(format)
    }
}

/// What is wanted of one window: how to recognise it, and where to put it.
///
/// `title` and `process` are regular expressions. `x`, `y`, `w` and `h` are
/// pixel counts (`"940"`, `"940px"`) or percentages of the monitor's width
/// (`"40%"`); one that is absent leaves that axis as it is.
#[derive(Debug, PartialEq)]
pub struct Window {
    /// Pattern for the window's title.
    pub title: Option<String>,
    /// Pattern for the name of the program that owns the window.
    pub process: Option<String>,
    /// The top left x-coordinate of the window's position.
    pub x: Option<String>,
    /// The top left y-coordinate of the window's position.
    pub y: Option<String>,
    /// The z-order of the window.
    pub z: Option<i32>,
    /// The width of the window.
    pub w: Option<String>,
    /// The height of the window.
    pub h: Option<String>,
    pub maximized: Option<bool>,
    pub maximized_vertical: Option<bool>,
    pub maximized_horizontal: Option<bool>,
    pub minimized: Option<bool>,
    /// Whether windows of one process that are put at one position are
    /// fanned out.
    pub allow_cascade: bool,
}

impl Window {
    /// A window of which nothing is asked and that matches nothing.
    pub open spec fn is_blank(self) -> bool {
        &&& self.title is None
        &&& self.process is None
        &&& self.x is None
        &&& self.y is None
        &&& self.z is None
        &&& self.w is None
        &&& self.h is None
        &&& self.maximized is None
        &&& self.maximized_vertical is None
        &&& self.maximized_horizontal is None
        &&& self.minimized is None
        &&& self.allow_cascade
    }

    pub fn new() -> (window: Self)
        ensures
            window.is_blank(),
    {
        Window {
            title: None,
            process: None,
            x: None,
            y: None,
            z: None,
            w: None,
            h: None,
            maximized: None,
            maximized_vertical: None,
            maximized_horizontal: None,
            minimized: None,
            allow_cascade: true,
        }
    }
}

impl Default for Window {
    fn default() -> (window: Self)
        ensures
            window.is_blank(),
    {
        Window::new()
    }
}

impl Clone for Window {
    fn clone(&self) -> (copy: Self)
        ensures
            copy == *self,
    {
        Window {
            title: self.title.clone(),
            process: self.process.clone(),
            x: self.x.clone(),
            y: self.y.clone(),
            z: self.z,
            w: self.w.clone(),
            h: self.h.clone(),
            maximized: self.maximized,
            maximized_vertical: self.maximized_vertical,
            maximized_horizontal: self.maximized_horizontal,
            minimized: self.minimized,
            allow_cascade: self.allow_cascade,
        }
    }
}

/// One screen and the windows wanted on it.
#[derive(Debug, PartialEq)]
pub struct Screen {
    pub id: Option<u8>,
    pub windows: Vec<Window>,
}

impl Screen {
    pub fn new() -> (screen: Self)
        ensures
            screen.id is None,
            screen.windows@.len() == 0,
    {
        Screen { id: None, windows: Vec::new() }
    }
}

impl Clone for Screen {
    fn clone(&self) -> (copy: Self)
        ensures
            copy.id == self.id,
            copy.windows@ == self.windows@,
    {
        Screen { id: self.id, windows: self.windows.clone() }
    }
}

/// A whole layout: its screens, in order.
#[derive(Debug, PartialEq)]
pub struct Layout {
    pub screens: Vec<Screen>,
}

impl Layout {
    pub fn new() -> (layout: Self)
        ensures
            layout.screens@.len() == 0,
    {
        Layout { screens: Vec::new() }
    }
}

impl Clone for Layout {
    fn clone(&self) -> (copy: Self)
        ensures
            copy.screens@.len() == self.screens@.len(),
            forall|i: int|
                0 <= i < self.screens@.len() ==> (#[trigger] copy.screens@[i]).id
                    == self.screens@[i].id && copy.screens@[i].windows@ == self.screens@[i].windows@,
    {
        let mut screens: Vec<Screen> = Vec::new();
        let mut i: usize = 0;
        while i < self.screens.len()
            invariant
                i <= self.screens.len(),
                screens@.len() == i,
                forall|k: int|
                    0 <= k < i ==> (#[trigger] screens@[k]).id == self.screens@[k].id
                        && screens@[k].windows@ == self.screens@[k].windows@,
            decreases self.screens.len() - i,
        {
            screens.push(self.screens[i].clone());
            i += 1;
        }
        Layout { screens }
    }
}

impl Default for Layout {
    fn default() -> (layout: Self)
        ensures
            layout.screens@.len() == 0,
    {
        Layout::new()
    }
}

/// Puts a [`Window`] together field by field. What is not set stays as in
/// a new window.
#[derive(Debug)]
pub struct WindowBuilder {
    target: Window,
}

impl Default for WindowBuilder {
    fn default() -> (builder: Self)
        ensures
            builder.built().is_blank(),
    {
        WindowBuilder { target: Window::new() }
    }
}

impl WindowBuilder {
    /// What the builder holds so far.
    pub closed spec fn built(self) -> Window {
        self.target
    }

    /// Sets `title`.
    pub fn title(self, value: Option<String>) -> (builder: Self)
        ensures
            builder.built() == (Window { title: value, ..self.built() }),
    {
        let mut target = self.target;
        target.title = value;
        WindowBuilder { target }
    }

    /// Sets `process`.
    pub fn process(self, value: Option<String>) -> (builder: Self)
        ensures
            builder.built() == (Window { process: value, ..self.built() }),
    {
        let mut target = self.target;
        target.process = value;
        WindowBuilder { target }
    }

    /// Sets `x`.
    pub fn x(self, value: Option<String>) -> (builder: Self)
        ensures
            builder.built() == (Window { x: value, ..self.built() }),
    {
        let mut target = self.target;
        target.x = value;
        WindowBuilder { target }
    }

    /// Sets `y`.
    pub fn y(self, value: Option<String>) -> (builder: Self)
        ensures
            builder.built() == (Window { y: value, ..self.built() }),
    {
        let mut target = self.target;
        target.y = value;
        WindowBuilder { target }
    }

    /// Sets `z`.
    pub fn z(self, value: Option<i32>) -> (builder: Self)
        ensures
            builder.built() == (Window { z: value, ..self.built() }),
    {
        let mut target = self.target;
        target.z = value;
        WindowBuilder { target }
    }

    /// Sets `w`.
    pub fn w(self, value: Option<String>) -> (builder: Self)
        ensures
            builder.built() == (Window { w: value, ..self.built() }),
    {
        let mut target = self.target;
        target.w = value;
        WindowBuilder { target }
    }

    /// Sets `h`.
    pub fn h(self, value: Option<String>) -> (builder: Self)
        ensures
            builder.built() == (Window { h: value, ..self.built() }),
    {
        let mut target = self.target;
        target.h = value;
        WindowBuilder { target }
    }

    /// Sets `maximized`.
    pub fn maximized(self, value: Option<bool>) -> (builder: Self)
        ensures
            builder.built() == (Window { maximized: value, ..self.built() }),
    {
        let mut target = self.target;
        target.maximized = value;
        WindowBuilder { target }
    }

    /// Sets `maximized_vertical`.
    pub fn maximized_vertical(self, value: Option<bool>) -> (builder: Self)
        ensures
            builder.built() == (Window { maximized_vertical: value, ..self.built() }),
    {
        let mut target = self.target;
        target.maximized_vertical = value;
        WindowBuilder { target }
    }

    /// Sets `maximized_horizontal`.
    pub fn maximized_horizontal(self, value: Option<bool>) -> (builder: Self)
        ensures
            builder.built() == (Window { maximized_horizontal: value, ..self.built() }),
    {
        let mut target = self.target;
        target.maximized_horizontal = value;
        WindowBuilder { target }
    }

    /// Sets `minimized`.
    pub fn minimized(self, value: Option<bool>) -> (builder: Self)
        ensures
            builder.built() == (Window { minimized: value, ..self.built() }),
    {
        let mut target = self.target;
        target.minimized = value;
        WindowBuilder { target }
    }

    /// Sets `allow_cascade`.
    pub fn allow_cascade(self, value: bool) -> (builder: Self)
        ensures
            builder.built() == (Window { allow_cascade: value, ..self.built() }),
    {
        let mut target = self.target;
        target.allow_cascade = value;
        WindowBuilder { target }
    }

    /// Gives what was put together. It never fails.
    pub fn build(self) -> (built: Result<Window, Error>)
        ensures
            built == Ok::<Window, Error>(self.built()),
    {
        Ok(self.target)
    }
}

/// Puts a [`Screen`] together field by field. What is not set stays as in
/// a new screen.
#[derive(Debug)]
pub struct ScreenBuilder {
    target: Screen,
}

impl Default for ScreenBuilder {
    fn default() -> (builder: Self)
        ensures
            builder.built().id is None && builder.built().windows@.len() == 0,
    {
        ScreenBuilder { target: Screen::new() }
    }
}

impl ScreenBuilder {
    /// What the builder holds so far.
    pub closed spec fn built(self) -> Screen {
        self.target
    }

    /// Sets `id`.
    pub fn id(self, value: Option<u8>) -> (builder: Self)
        ensures
            builder.built() == (Screen { id: value, ..self.built() }),
    {
        let mut target = self.target;
        target.id = value;
        ScreenBuilder { target }
    }

    /// Sets `windows`.
    pub fn windows(self, value: Vec<Window>) -> (builder: Self)
        ensures
            builder.built() == (Screen { windows: value, ..self.built() }),
    {
        let mut target = self.target;
        target.windows = value;
        ScreenBuilder { target }
    }

    /// Gives what was put together. It never fails.
    pub fn build(self) -> (built: Result<Screen, Error>)
        ensures
            built == Ok::<Screen, Error>(self.built()),
    {
        Ok(self.target)
    }
}

/// Puts a [`Layout`] together field by field. What is not set stays as in
/// a new layout.
#[derive(Debug)]
pub struct LayoutBuilder {
    target: Layout,
}

impl Default for LayoutBuilder {
    fn default() -> (builder: Self)
        ensures
            builder.built().screens@.len() == 0,
    {
        LayoutBuilder { target: Layout::new() }
    }
}

impl LayoutBuilder {
    /// What the builder holds so far.
    pub closed spec fn built(self) -> Layout {
        self.target
    }

    /// Sets `screens`.
    pub fn screens(self, value: Vec<Screen>) -> (builder: Self)
        ensures
            builder.built() == (Layout { screens: value, ..self.built() }),
    {
        let mut target = self.target;
        target.screens = value;
        LayoutBuilder { target }
    }

    /// Gives what was put together. It never fails.
    pub fn build(self) -> (built: Result<Layout, Error>)
        ensures
            built == Ok::<Layout, Error>(self.built()),
    {
        Ok(self.target)
    }
}

/// The most of a title that a listing shows, in bytes.
pub const LISTED_TITLE_LENGTH: usize = 32;

/// The most of a process name that a listing shows, in bytes.
pub const LISTED_PROCESS_LENGTH: usize = 64;

/// The text of a coordinate in a listing: `0` when it is absent.
pub open spec fn coordinate_text(value: Option<String>) -> Seq<char> {
    match value {
        Some(text) => text@,
        None => "0"@,
    }
}

/// One line of a listing of windows.
#[derive(Debug, PartialEq)]
pub struct ListingRow {
    pub title: String,
    pub process: String,
    pub point: String,
    pub dimension: String,
}

fn coordinate(value: &Option<String>) -> (text: &str)
    ensures
        text@ == coordinate_text(*value),
{
    match value {
        Some(text) => text.as_str(),
        None => "0",
    }
}

/// Makes the line that a listing shows for `window`: its title cut on the
/// right, its process name cut on the left, its position as `(x, y)` and its
/// size as `w x h`.
pub fn listing_row(window: &Window) -> (row: ListingRow)
    ensures
        row.title@ == shrunk_right(text_of(window.title), LISTED_TITLE_LENGTH as int),
        row.process@ == shrunk_left(text_of(window.process), LISTED_PROCESS_LENGTH as int),
        row.point@ == "("@ + coordinate_text(window.x) + ", "@ + coordinate_text(window.y) + ")"@,
        row.dimension@ == coordinate_text(window.w) + " x "@ + coordinate_text(window.h),
{
    let mut point = String::from_str("(");
    point.append(coordinate(&window.x));
    point.append(", ");
    point.append(coordinate(&window.y));
    point.append(")");
    let mut dimension = String::from_str(coordinate(&window.w));
    dimension.append(" x ");
    dimension.append(coordinate(&window.h));
    ListingRow {
        title: shrink_right(text_or_empty(&window.title), LISTED_TITLE_LENGTH),
        process: shrink_left(text_or_empty(&window.process), LISTED_PROCESS_LENGTH),
        point,
        dimension,
    }
}

} // verus!
