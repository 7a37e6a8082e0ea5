//! Watching a file's modification time.
use vstd::prelude::*;

verus! {

/// The last modification time seen of the watched file, in milliseconds
/// since the Unix epoch.
pub struct PollWatch {
    pub last_modified: u128,
}

impl PollWatch {
    /// Starts from the modification time read first.
    pub fn new(modified: u128) -> (res: PollWatch)
        ensures
            res.last_modified == modified,
    {
        PollWatch { last_modified: modified }
    }

    /// Takes in a newly read modification time: a change, which asks for a
    /// swap, is a time other than the last one seen (later or earlier);
    /// either way the new time becomes the last one.
    pub fn observe(&mut self, modified: u128) -> (changed: bool)
        ensures
            changed == (modified != old(self).last_modified),
            final(self).last_modified == modified,
    {
        let changed: bool = modified != self.last_modified;
        self.last_modified = modified;
        changed
    }
}

} // verus!
