//! Windows as an X server lists them.

use vstd::prelude::*;
use crate::layout::{Screen, Window};
use crate::text::{decimal, to_decimal};
use crate::{Dimensions, Point};

verus! {

/// A window of an X server: its id, and a description of it.
#[derive(Debug, PartialEq)]
pub struct X11Window {
    pub id: u64,
    pub window: Window,
}

impl X11Window {
    /// The window `id`, of which nothing is known yet.
    pub fn new(id: u64) -> (window: Self)
        ensures
            window.id == id,
            window.window.is_blank(),
    {
        X11Window { id, window: Window::new() }
    }

    /// Fills in what the server says of the window: its size, where it is,
    /// and its name.
    pub fn populate(self, size: Dimensions, location: Point, name: String) -> (window: Self)
        ensures
            window.id == self.id,
            window.window.w matches Some(w) && w@ == decimal(size.width as int),
            window.window.h matches Some(h) && h@ == decimal(size.height as int),
            window.window.x matches Some(x) && x@ == decimal(location.x as int),
            window.window.y matches Some(y) && y@ == decimal(location.y as int),
            window.window.title == Some(name),
            window.window.process == self.window.process,
            window.window.z == self.window.z,
            window.window.maximized == self.window.maximized,
            window.window.maximized_vertical == self.window.maximized_vertical,
            window.window.maximized_horizontal == self.window.maximized_horizontal,
            window.window.minimized == self.window.minimized,
            window.window.allow_cascade == self.window.allow_cascade,
    {
        let mut window = self;
        window.window.w = Some(to_decimal(size.width));
        window.window.h = Some(to_decimal(size.height));
        window.window.x = Some(to_decimal(location.x));
        window.window.y = Some(to_decimal(location.y));
        window.window.title = Some(name);
        window
    }
}

impl Clone for X11Window {
    fn clone(&self) -> (copy: Self)
        ensures
            copy == *self,
    {
        X11Window { id: self.id, window: self.window.clone() }
    }
}

impl Default for X11Window {
    fn default() -> (window: Self)
        ensures
            window.id == 0,
            window.window.is_blank(),
    {
        X11Window::new(0)
    }
}

/// The one screen of an X server, with the descriptions of its windows in
/// the order in which they are listed.
pub fn screens(windows: &Vec<X11Window>) -> (list: Vec<Screen>)
    ensures
        list@.len() == 1,
        list@[0].id is None,
        list@[0].windows@ == windows@.map_values(|w: X11Window| w.window),
{
    let mut screen = Screen::new();
    let mut i: usize = 0;
    assert(screen.windows@ =~= windows@.take(0).map_values(|w: X11Window| w.window));
    while i < windows.len()
        invariant
            i <= windows.len(),
            screen.id is None,
            screen.windows@ == windows@.take(i as int).map_values(|w: X11Window| w.window),
        decreases windows.len() - i,
    {
        screen.windows.push(windows[i].window.clone());
        assert(windows@.take(i as int + 1).map_values(|w: X11Window| w.window) =~= windows@.take(
            i as int,
        ).map_values(|w: X11Window| w.window).push(windows@[i as int].window));
        i += 1;
    }
    assert(windows@.take(windows@.len() as int) =~= windows@);
    let mut list: Vec<Screen> = Vec::new();
    list.push(screen);
    list
}

} // verus!
