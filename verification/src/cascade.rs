//! Fanning out windows of one process that are put at one place.
//!
//! The first window of a process keeps the position asked for it. Each later
//! window of that process goes 30 pixels right of and below the one before
//! it, so the offsets add up.

use vstd::prelude::*;
use crate::Point;
use crate::text::str_eq;

verus! {

/// How far each further window of a process is moved, on both axes.
pub const CASCADE_DELTA: i32 = 30;

/// The positions last given out, by process.
pub struct CascadeAllocator {
    placed: Vec<(String, Point)>,
}

/// The map that a list of placements stands for: a later placement of a
/// process replaces the one before it.
pub open spec fn placements(list: Seq<(String, Point)>) -> Map<Seq<char>, Point>
    decreases list.len(),
{
    if list.len() == 0 {
        Map::empty()
    } else {
        placements(list.drop_last()).insert(list.last().0@, list.last().1)
    }
}

/// Whether the next position of `process` can be represented: it is unknown
/// yet, or the position after its last one is within range.
pub open spec fn can_place(state: Map<Seq<char>, Point>, process: Seq<char>) -> bool {
    state.contains_key(process) ==> {
        &&& state[process].x + CASCADE_DELTA <= i32::MAX
        &&& state[process].y + CASCADE_DELTA <= i32::MAX
    }
}

/// The position that `process` gets next: the one asked for if the process is
/// new, else its last position moved by the delta.
pub open spec fn next_position(
    state: Map<Seq<char>, Point>,
    process: Seq<char>,
    requested: Point,
) -> Point {
    if state.contains_key(process) {
        Point {
            x: (state[process].x + CASCADE_DELTA) as i32,
            y: (state[process].y + CASCADE_DELTA) as i32,
        }
    } else {
        requested
    }
}

/// Each position follows the one before it by the cascade delta on both axes.
pub open spec fn fans_out(positions: Seq<Point>) -> bool {
    forall|k: int|
        1 <= k < positions.len() ==> {
            &&& (#[trigger] positions[k]).x == positions[k - 1].x + CASCADE_DELTA
            &&& positions[k].y == positions[k - 1].y + CASCADE_DELTA
        }
}

impl View for CascadeAllocator {
    type V = Map<Seq<char>, Point>;

    closed spec fn view(&self) -> Map<Seq<char>, Point> {
        placements(self.placed@)
    }
}

impl CascadeAllocator {
    /// An allocator that has placed nothing.
    pub fn new() -> (allocator: Self)
        ensures
            allocator@ == Map::<Seq<char>, Point>::empty(),
    {
        CascadeAllocator { placed: Vec::new() }
    }

    /// The position last given to `process`, if it has one.
    pub fn last(&self, process: &str) -> (position: Option<Point>)
        ensures
            position == if self@.contains_key(process@) {
                Some(self@[process@])
            } else {
                None
            },
    {
        let mut i: usize = self.placed.len();
        assert(self.placed@.take(i as int) =~= self.placed@);
        while i > 0
            invariant
                i <= self.placed.len(),
                placements(self.placed@).contains_key(process@) == placements(
                    self.placed@.take(i as int),
                ).contains_key(process@),
                placements(self.placed@).contains_key(process@) ==> placements(self.placed@)[process@]
                    == placements(self.placed@.take(i as int))[process@],
            decreases i,
        {
            proof {
                let upto = self.placed@.take(i as int);
                assert(upto.drop_last() =~= self.placed@.take(i as int - 1));
                assert(upto.last() == self.placed@[i as int - 1]);
            }
            if str_eq(self.placed[i - 1].0.as_str(), process) {
                return Some(self.placed[i - 1].1);
            }
            i -= 1;
        }
        None
    }

    /// Gives `process` its next position and remembers it.
    pub fn place(&mut self, process: &str, requested: Point) -> (position: Point)
        requires
            can_place(old(self)@, process@),
        ensures
            position == next_position(old(self)@, process@, requested),
            final(self)@ == old(self)@.insert(process@, position),
    {
        let position = match self.last(process) {
            Some(last) => Point { x: last.x + CASCADE_DELTA, y: last.y + CASCADE_DELTA },
            None => requested,
        };
        let key = String::from_str(process);
        proof {
            let after = self.placed@.push((key, position));
            assert(after.drop_last() =~= self.placed@);
        }
        self.placed.push((key, position));
        position
    }

    /// Gives `process` its next position and remembers it, unless that
    /// position is out of range; then nothing changes.
    pub fn try_place(&mut self, process: &str, requested: Point) -> (position: Option<Point>)
        ensures
            can_place(old(self)@, process@) ==> position == Some(
                next_position(old(self)@, process@, requested),
            ) && final(self)@ == old(self)@.insert(process@, position.unwrap()),
            !can_place(old(self)@, process@) ==> position is None && final(self)@ == old(self)@,
    {
        match self.last(process) {
            Some(last) => {
                if last.x > i32::MAX - CASCADE_DELTA || last.y > i32::MAX - CASCADE_DELTA {
                    return None;
                }
            },
            None => {},
        }
        Some(self.place(process, requested))
    }
}

} // verus!
