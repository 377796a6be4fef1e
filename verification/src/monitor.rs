//! A monitor, as a listing shows it.

use vstd::prelude::*;

verus! {

#[derive(Debug, PartialEq)]
pub struct Monitor {
    pub name: String,
    pub position: (i32, i32),
    pub size: (i32, i32),
}

impl Monitor {
    /// A monitor without a name, of no size, at the origin.
    pub fn new() -> (monitor: Self)
        ensures
            monitor.name@.len() == 0,
            monitor.position == (0i32, 0i32),
            monitor.size == (0i32, 0i32),
    {
        Monitor { position: (0, 0), size: (0, 0), name: String::new() }
    }
}

impl Clone for Monitor {
    fn clone(&self) -> (copy: Self)
        ensures
            copy == *self,
    {
        Monitor { name: self.name.clone(), position: self.position, size: self.size }
    }
}

} // verus!
