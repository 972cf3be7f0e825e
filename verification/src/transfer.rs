//! Carrying out an operation, one write at a time.
//!
//! Every operation of the driver comes to a sequence of writes: the
//! commands it sends, and for drawing a data write for each row segment of
//! the buffer, with the three commands that point the controller at the
//! next row after every segment that ends at the window's right edge. A
//! [`Transfer`] holds what an operation has yet to write and remembers the
//! write that is on its way, so that the caller can perform each write,
//! wait for the channel, and ask for the next one. [`step`] is the rule by
//! which it goes on.

use crate::command::{issued, Command, Write, WriteView};
use crate::window::{Window, WindowView};
use display_interface::DisplayError;
use vstd::prelude::*;
use vstd::slice::slice_subrange;

verus! {

/// The write of a transfer that was handed out last and is still on its way.
#[derive(Clone, Copy, Debug, PartialEq, Eq)]
pub enum Phase {
    /// None: the transfer has not begun, or it is over.
    Idle,
    /// The first of the commands that are waiting.
    Command,
    /// A data write for the row segment at the cursor.
    Chunk,
}

/// What an operation has yet to write to the controller. An operation is
/// carried out only as far as its transfer is stepped through.
#[must_use]
pub struct Transfer<'a> {
    commands: Vec<Command>,
    sent: usize,
    rest: &'a [u8],
    phase: Phase,
}

/// A [`Transfer`] as contracts see it.
pub struct TransferView {
    /// The commands that are waiting, in the order they are sent. They go
    /// before any data. A command on its way is the first of them.
    pub commands: Seq<Command>,
    /// The bytes that are still to be drawn. A data write on its way
    /// carries the first of them.
    pub data: Seq<u8>,
    /// The write on its way.
    pub phase: Phase,
}

impl TransferView {
    /// A transfer that has not begun: `commands` to send and then `data`
    /// to draw.
    pub open spec fn fresh(commands: Seq<Command>, data: Seq<u8>) -> TransferView {
        TransferView { commands, data, phase: Phase::Idle }
    }

    /// A transfer that is over.
    pub open spec fn done() -> TransferView {
        TransferView::fresh(Seq::empty(), Seq::empty())
    }

    /// What holds of every transfer: the write on its way is one of those
    /// the transfer has yet to see taken, and data is on its way only when
    /// no command is waiting.
    pub open spec fn wf(self) -> bool {
        &&& self.phase is Command ==> self.commands.len() > 0
        &&& self.phase is Chunk ==> self.commands.len() == 0 && self.data.len() > 0
    }

    /// Whether the transfer can go on on `window`: one that has bytes to
    /// draw needs a window to draw them to.
    pub open spec fn fits(self, window: WindowView) -> bool {
        self.data.len() > 0 ==> window.is_open()
    }
}

impl<'a> View for Transfer<'a> {
    type V = TransferView;

    closed spec fn view(&self) -> TransferView {
        TransferView {
            commands: self.commands@.skip(self.sent as int),
            data: self.rest@,
            phase: self.phase,
        }
    }
}

/// Outcome of one step of a transfer.
pub struct Step {
    /// The window and cursor after the step.
    pub window: WindowView,
    /// The transfer after the step.
    pub transfer: TransferView,
    /// The write to perform next; `None` when the transfer is over.
    pub write: Option<WriteView>,
}

/// The commands that follow a data write of `count` bytes at the cursor of
/// `window`: those that point the controller at the new cursor if the write
/// ended at the right edge, none otherwise.
pub open spec fn row_change(window: WindowView, count: int) -> Seq<Command> {
    if window.wraps(count) {
        window.advance(count).address()
    } else {
        Seq::empty()
    }
}

/// Window and transfer once the controller has taken the write on its way,
/// and before the next write is handed out.
///
/// A command that has been taken leaves the waiting commands. A data write
/// that has been taken moves the cursor past its bytes and drops them from
/// the transfer; if that took the cursor to another row, the commands that
/// point the controller there are now waiting.
pub open spec fn settle(window: WindowView, transfer: TransferView) -> (WindowView, TransferView) {
    match transfer.phase {
        Phase::Idle => (window, transfer),
        Phase::Command => (
            window,
            TransferView::fresh(transfer.commands.skip(1), transfer.data),
        ),
        Phase::Chunk => {
            let count: int = window.chunk_len(transfer.data.len() as int);
            (
                window.advance(count),
                TransferView::fresh(
                    transfer.commands + row_change(window, count),
                    transfer.data.skip(count),
                ),
            )
        },
    }
}

/// Hands out the next write of a transfer with no write on its way: the
/// first command that is waiting; with none waiting, the data write for the
/// row segment at the cursor; with no byte left either, nothing.
pub open spec fn issue(window: WindowView, transfer: TransferView) -> Step {
    if transfer.commands.len() > 0 {
        Step {
            window,
            transfer: TransferView { phase: Phase::Command, ..transfer },
            write: Some(WriteView::Command(transfer.commands[0])),
        }
    } else if transfer.data.len() > 0 {
        Step {
            window,
            transfer: TransferView { phase: Phase::Chunk, ..transfer },
            write: Some(
                WriteView::Data(transfer.data.take(window.chunk_len(transfer.data.len() as int))),
            ),
        }
    } else {
        Step { window, transfer: TransferView { phase: Phase::Idle, ..transfer }, write: None }
    }
}

/// One step of a transfer whose last write the controller took: what the
/// write did is recorded, and the next write is handed out.
pub open spec fn step(window: WindowView, transfer: TransferView) -> Step {
    issue(settle(window, transfer).0, settle(window, transfer).1)
}

impl<'a> Transfer<'a> {
    #[verifier::type_invariant]
    pub(crate) closed spec fn inv(self) -> bool {
        self.sent <= self.commands@.len() && self@.wf()
    }

    /// A transfer that sends `commands`, in order.
    pub(crate) fn of_commands(commands: Vec<Command>) -> (transfer: Transfer<'static>)
        ensures
            transfer@ == TransferView::fresh(commands@, Seq::empty()),
    {
        let transfer = Transfer { commands, sent: 0, rest: &[], phase: Phase::Idle };
        assert(transfer@.commands =~= commands@);
        assert(transfer@.data =~= Seq::<u8>::empty());
        transfer
    }

    /// A transfer that draws `buffer`.
    pub(crate) fn of_data(buffer: &'a [u8]) -> (transfer: Transfer<'a>)
        ensures
            transfer@ == TransferView::fresh(Seq::empty(), buffer@),
    {
        let transfer = Transfer { commands: Vec::new(), sent: 0, rest: buffer, phase: Phase::Idle };
        assert(transfer@.commands =~= Seq::<Command>::empty());
        transfer
    }

    /// Number of bytes that are still to be drawn, those of a data write on
    /// its way included.
    pub fn remaining(&self) -> (count: usize)
        ensures
            count == self@.data.len(),
    {
        self.rest.len()
    }

    /// Takes the transfer one step further on `window`. After a write that
    /// the controller took, it goes on as [`step`] says and returns the write
    /// to perform next; after one that the channel rejected, it hands the
    /// error back and changes nothing.
    pub(crate) fn resume(&mut self, window: &mut Window, outcome: Result<(), DisplayError>) -> (next: Result<Option<Write<'a>>, DisplayError>)
        requires
            old(self)@.fits(old(window)@),
        ensures
            outcome matches Err(error) ==> (next matches Err(returned) && returned == error),
            outcome is Err ==> final(window)@ == old(window)@ && final(self)@ == old(self)@,
            outcome is Ok ==> (next matches Ok(write) && issued(write) == step(
                old(window)@,
                old(self)@,
            ).write),
            outcome is Ok ==> final(window)@ == step(old(window)@, old(self)@).window,
            outcome is Ok ==> final(self)@ == step(old(window)@, old(self)@).transfer,
            final(self)@.wf(),
            final(self)@.fits(final(window)@),
            final(window)@.wf(),
    {
        proof {
            use_type_invariant(&*self);
            use_type_invariant(&*window);
        }
        if let Err(error) = outcome {
            return Err(error);
        }
        match self.phase {
            Phase::Idle => {},
            Phase::Command => {
                assert(self.sent < self.commands.len());
                self.phase = Phase::Idle;
                self.sent = self.sent + 1;
                assert(self@.commands =~= old(self)@.commands.skip(1));
            },
            Phase::Chunk => {
                self.phase = Phase::Idle;
                let count: u8 = window.chunk_len(self.rest.len());
                let wrapped: bool = window.advance(count);
                self.rest = slice_subrange(self.rest, count as usize, self.rest.len());
                if wrapped {
                    let address: [Command; 3] = window.address();
                    self.sent = 0;
                    self.commands = vec![address[0], address[1], address[2]];
                    assert(self@.commands =~= old(self)@.commands + window@.address());
                } else {
                    assert(self@.commands =~= old(self)@.commands + Seq::<Command>::empty());
                }
            },
        }
        if self.sent < self.commands.len() {
            let command: Command = self.commands[self.sent];
            self.phase = Phase::Command;
            Ok(Some(Write::Command(command)))
        } else if self.rest.len() > 0 {
            let count: u8 = window.chunk_len(self.rest.len());
            self.phase = Phase::Chunk;
            Ok(Some(Write::Data(slice_subrange(self.rest, 0, count as usize))))
        } else {
            Ok(None)
        }
    }
}

} // verus!
