//! What a platform reports of a monitor, made into a [`Monitor`].

use vstd::prelude::*;
use crate::monitor::Monitor;
use crate::platform::win::Rect;
use crate::platform::windows::{get_dimensions, get_position, magnitude};

verus! {

/// The least index `>= from` that holds a zero, or `units.len()` when there
/// is none.
pub open spec fn first_nul(units: Seq<u16>, from: int) -> int
    decreases units.len() - from,
{
    if from >= units.len() {
        units.len() as int
    } else if from >= 0 && units[from] == 0 {
        from
    } else {
        first_nul(units, from + 1)
    }
}

/// The units of a text that the platform hands over in a buffer: the ones
/// before the first zero, or all of them when none is zero.
pub fn until_nul(units: &Vec<u16>) -> (text: Vec<u16>)
    ensures
        text@ == units@.take(first_nul(units@, 0)),
{
    let mut text: Vec<u16> = Vec::new();
    let mut i: usize = 0;
    assert(units@.take(0) =~= Seq::<u16>::empty());
    while i < units.len() && units[i] != 0
        invariant
            i <= units.len(),
            first_nul(units@, 0) == first_nul(units@, i as int),
            text@ == units@.take(i as int),
        decreases units.len() - i,
    {
        text.push(units[i]);
        assert(units@.take(i as int + 1) =~= units@.take(i as int).push(units@[i as int]));
        i += 1;
    }
    text
}

/// The monitor with the device name `name` whose rectangle is `rect`.
pub fn monitor_from(name: String, rect: Rect) -> (monitor: Monitor)
    requires
        magnitude(rect.right - rect.left) <= i32::MAX,
        magnitude(rect.bottom - rect.top) <= i32::MAX,
    ensures
        monitor.name == name,
        monitor.position == (rect.left, rect.top),
        monitor.size.0 == magnitude(rect.right - rect.left),
        monitor.size.1 == magnitude(rect.bottom - rect.top),
{
    let mut monitor = Monitor::new();
    monitor.position = get_position(rect);
    monitor.size = get_dimensions(rect);
    monitor.name = name;
    monitor
}

} // verus!
