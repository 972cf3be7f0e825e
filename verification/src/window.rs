//! The active window of the controller's memory and the write cursor in it.
//!
//! Columns and rows are in the controller's native units, whatever the
//! rotation. A window spans the columns `start.0 .. end.0` and the rows
//! `start.1 .. end.1`, the end excluded on both axes.

use crate::command::Command;
use vstd::prelude::*;

verus! {

/// A window and the cursor in it, as contracts see them.
pub struct WindowView {
    /// First column and first row of the window.
    pub start: (u8, u8),
    /// The column and the row just past the window.
    pub end: (u8, u8),
    /// Column of the cursor.
    pub column: u8,
    /// Row of the cursor.
    pub row: u8,
}

impl WindowView {
    /// The window holds at least one column and one row. Only such a window
    /// can be drawn to.
    pub open spec fn is_open(self) -> bool {
        self.start.0 < self.end.0 && self.start.1 < self.end.1
    }

    /// What holds of every window the driver keeps: the cursor never stands
    /// before the window's start, and on an axis on which the window is not
    /// empty it stands before the window's end.
    pub open spec fn wf(self) -> bool {
        &&& self.start.0 <= self.column
        &&& self.start.1 <= self.row
        &&& self.start.0 < self.end.0 ==> self.column < self.end.0
        &&& self.start.1 < self.end.1 ==> self.row < self.end.1
    }

    /// The window from `start` to `end` with the cursor at its start.
    pub open spec fn at(start: (u8, u8), end: (u8, u8)) -> WindowView {
        WindowView { start, end, column: start.0, row: start.1 }
    }

    /// Number of columns of the window.
    pub open spec fn width(self) -> int {
        self.end.0 - self.start.0
    }

    /// Number of rows of the window.
    pub open spec fn height(self) -> int {
        self.end.1 - self.start.1
    }

    /// Number of bytes that fit between the cursor and the right edge.
    pub open spec fn room(self) -> int {
        self.end.0 - self.column
    }

    /// Length of the next data write when `available` bytes are left to
    /// draw: as many as fit in the row, or all that is left if that is less.
    pub open spec fn chunk_len(self, available: int) -> int {
        if available < self.room() {
            available
        } else {
            self.room()
        }
    }

    /// Whether writing `count` bytes takes the cursor to the right edge.
    pub open spec fn wraps(self, count: int) -> bool {
        self.column + count >= self.end.0
    }

    /// The row below the cursor, or the window's first row when the cursor
    /// stands in the last one.
    pub open spec fn next_row(self) -> u8 {
        if self.row + 1 >= self.end.1 {
            self.start.1
        } else {
            (self.row + 1) as u8
        }
    }

    /// The window after `count` bytes were written at the cursor, `count`
    /// being at most `room()`. A cursor that reaches the right edge goes
    /// back to the first column and down one row; from the last row it goes
    /// back to the first. The window itself stays as it is.
    pub open spec fn advance(self, count: int) -> WindowView {
        if self.wraps(count) {
            WindowView { column: self.start.0, row: self.next_row(), ..self }
        } else {
            WindowView { column: (self.column + count) as u8, ..self }
        }
    }

    /// The commands that point the controller at the cursor: the page
    /// address, then the low and the high nibble of the column address.
    pub open spec fn address(self) -> Seq<Command> {
        seq![
            Command::PageAddress(self.row),
            Command::ColumnAddressLow((self.column % 16) as u8),
            Command::ColumnAddressHigh((self.column / 16) as u8),
        ]
    }

    /// The two nibbles of the column address are nibbles, and put together
    /// they give the cursor's column.
    pub proof fn lemma_address_nibbles(self)
        ensures
            self.address().len() == 3,
            self.address()[0] == Command::PageAddress(self.row),
            self.address()[1] matches Command::ColumnAddressLow(low)
                && self.address()[2] matches Command::ColumnAddressHigh(high)
                && low < 16
                && high < 16
                && 16 * high + low == self.column,
    {
    }

    /// Writing at the cursor of an open window keeps the cursor inside it.
    pub proof fn lemma_advance_stays_inside(self, count: int)
        requires
            self.wf(),
            self.is_open(),
            0 <= count <= self.room(),
        ensures
            self.advance(count).wf(),
            self.advance(count).is_open(),
            self.advance(count).start == self.start,
            self.advance(count).end == self.end,
    {
    }
}

/// The window and cursor the driver keeps.
pub(crate) struct Window {
    start: (u8, u8),
    end: (u8, u8),
    column: u8,
    row: u8,
}

impl View for Window {
    type V = WindowView;

    closed spec fn view(&self) -> WindowView {
        WindowView { start: self.start, end: self.end, column: self.column, row: self.row }
    }
}

impl Window {
    #[verifier::type_invariant]
    pub(crate) open spec fn inv(self) -> bool {
        self@.wf()
    }

    /// The window from `start` to `end` with the cursor at its start.
    pub(crate) fn at(start: (u8, u8), end: (u8, u8)) -> (window: Window)
        ensures
            window@ == WindowView::at(start, end),
            window@.wf(),
    {
        Window { start, end, column: start.0, row: start.1 }
    }

    /// First column and row, and the column and row past the end.
    pub(crate) fn bounds(&self) -> (bounds: ((u8, u8), (u8, u8)))
        ensures
            bounds == (self@.start, self@.end),
    {
        (self.start, self.end)
    }

    /// Column and row of the cursor.
    pub(crate) fn cursor(&self) -> (cursor: (u8, u8))
        ensures
            cursor == (self@.column, self@.row),
            self@.wf(),
    {
        proof {
            use_type_invariant(self);
        }
        (self.column, self.row)
    }

    /// Length of the next data write when `available` bytes are left.
    pub(crate) fn chunk_len(&self, available: usize) -> (count: u8)
        requires
            self@.is_open(),
        ensures
            count == self@.chunk_len(available as int),
            available > 0 ==> count >= 1,
            count <= available,
            count <= self@.room(),
    {
        proof {
            use_type_invariant(self);
        }
        let room: u8 = self.end.0 - self.column;
        if available < room as usize {
            available as u8
        } else {
            room
        }
    }

    /// Moves the cursor past `count` bytes written at it and says whether it
    /// went to the start of another row, so that the controller has to be
    /// pointed at it again.
    pub(crate) fn advance(&mut self, count: u8) -> (wrapped: bool)
        requires
            old(self)@.is_open(),
            count <= old(self)@.room(),
        ensures
            final(self)@ == old(self)@.advance(count as int),
            wrapped == old(self)@.wraps(count as int),
            final(self)@.wf(),
    {
        proof {
            use_type_invariant(&*self);
        }
        let reached: u8 = self.column + count;
        if reached >= self.end.0 {
            let below: u8 = self.row + 1;
            let row: u8 = if below >= self.end.1 {
                self.start.1
            } else {
                below
            };
            *self = Window { start: self.start, end: self.end, column: self.start.0, row };
            true
        } else {
            *self = Window { start: self.start, end: self.end, column: reached, row: self.row };
            false
        }
    }

    /// The commands that point the controller at the cursor.
    pub(crate) fn address(&self) -> (commands: [Command; 3])
        ensures
            commands@ == self@.address(),
    {
        let column: u8 = self.column;
        assert(0xF & column == column % 16) by (bit_vector);
        assert(0xF & (column >> 4) == column / 16) by (bit_vector);
        [
            Command::PageAddress(self.row),
            Command::ColumnAddressLow(0xF & column),
            Command::ColumnAddressHigh(0xF & (column >> 4)),
        ]
    }
}

} // verus!
