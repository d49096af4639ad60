//! What the words of files and sockets need that is no input or output: the
//! numbers that open files are known by, and the meaning of the flags that a
//! file is opened with.

use vstd::prelude::*;

verus! {

/// The number that the first file that is opened gets.
pub const FIRST_FD: i64 = 4;

/// The flag that opens a file for reading.
pub const FLAG_READ: i64 = 1;

/// The flag that opens a file for writing.
pub const FLAG_WRITE: i64 = 2;

/// Gives out the numbers that open files and sockets are known by: 4 first,
/// and then each time the next number.
pub struct FdCounter {
    next: i64,
}

impl FdCounter {
    /// The number that is given out next.
    pub closed spec fn peek(&self) -> i64 {
        self.next
    }

    pub fn new() -> (r: FdCounter)
        ensures
            r.peek() == FIRST_FD,
    {
        FdCounter { next: FIRST_FD }
    }

    /// Gives out a number that no earlier call has given out, unless the
    /// numbers are used up, in which case the largest number is given out
    /// again.
    pub fn generate_fd(&mut self) -> (r: i64)
        ensures
            r == old(self).peek(),
            final(self).peek() == if old(self).peek() < i64::MAX {
                (old(self).peek() + 1) as i64
            } else {
                old(self).peek()
            },
    {
        let fd = self.next;
        if self.next < i64::MAX {
            self.next = self.next + 1;
        }
        fd
    }
}

/// Whether the flags ask for reading, and whether they ask for writing.
pub open spec fn access_of(flags: i64) -> (bool, bool) {
    (flags & FLAG_READ != 0, flags & FLAG_WRITE != 0)
}

/// Whether the flags that a file is opened with ask for reading, and whether
/// they ask for writing.
pub fn flags_to_access(flags: i64) -> (r: (bool, bool))
    ensures
        r == access_of(flags),
{
    (flags & FLAG_READ != 0, flags & FLAG_WRITE != 0)
}

} // verus!
