//! The dimensions of the terminal the editor draws into.
//!
//! Querying the real terminal is the caller's business; the library
//! only keeps the measured size, reserving two rows at the bottom for
//! the status and message bars.

use vstd::prelude::*;

verus! {

/// A viewport size in character cells.
#[derive(Clone, Copy, PartialEq, Eq, Structural, Debug)]
pub struct Size {
    pub width: u16,
    pub height: u16,
}

/// The terminal as the editor sees it: a drawing area of a fixed size.
pub struct Terminal {
    size: Size,
}

impl Terminal {
    /// The drawing area's size.
    pub closed spec fn spec_size(&self) -> Size {
        self.size
    }

    /// A terminal of `columns` by `rows` cells; the bottom two rows
    /// are reserved for the status and message bars, so the drawing
    /// area is two rows shorter.
    pub fn new(columns: u16, rows: u16) -> (t: Terminal)
        ensures
            t.spec_size().width == columns,
            t.spec_size().height == if rows >= 2 {
                rows - 2
            } else {
                0
            },
    {
        let height = if rows >= 2 {
            rows - 2
        } else {
            0
        };
        Terminal { size: Size { width: columns, height } }
    }

    /// The drawing area's size.
    pub fn size(&self) -> (s: &Size)
        ensures
            *s == self.spec_size(),
    {
        &self.size
    }
}

} // verus!
