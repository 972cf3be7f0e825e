//! What the driver sends to the controller.

use crate::displaysize::DisplaySize;
use vstd::prelude::*;

verus! {

/// A controller command with its parameters. How a command is laid out in
/// bytes is up to the layer that puts it on the bus.
#[derive(Clone, Copy, Debug, PartialEq, Eq)]
pub enum Command {
    /// Contrast level.
    Contrast(u8),
    /// Panel on or off; the display memory is kept while off.
    DisplayOn(bool),
    /// Low nibble of the column address.
    ColumnAddressLow(u8),
    /// High nibble of the column address.
    ColumnAddressHigh(u8),
    /// Page (row) address.
    PageAddress(u8),
    /// Map the segment outputs in native or reverse order.
    SegmentRemap(bool),
    /// Scan the common outputs in native or reverse order.
    SetCommonScanDir(bool),
    /// Panel geometry.
    DisplayResolution(DisplaySize),
    /// Oscillator frequency and clock divide ratio.
    DisplayClockDiv(u8, u8),
    /// Discharge and pre-charge periods.
    PreChargePeriod(u8, u8),
}

/// One write on the channel to the controller.
#[derive(Clone, Copy, Debug, PartialEq, Eq)]
pub enum Write<'a> {
    /// A command write.
    Command(Command),
    /// A data write: pixel bytes for the controller's memory, stored from
    /// its address pointer on.
    Data(&'a [u8]),
}

/// A [`Write`] as contracts see it: a data write is the bytes it carries.
pub enum WriteView {
    Command(Command),
    Data(Seq<u8>),
}

impl<'a> View for Write<'a> {
    type V = WriteView;

    open spec fn view(&self) -> WriteView {
        match *self {
            Write::Command(command) => WriteView::Command(command),
            Write::Data(bytes) => WriteView::Data(bytes@),
        }
    }
}

impl WriteView {
    /// The pixel bytes this write carries; none for a command.
    pub open spec fn payload(self) -> Seq<u8> {
        match self {
            WriteView::Command(_) => Seq::empty(),
            WriteView::Data(bytes) => bytes,
        }
    }
}

/// The write handed out by a step, if any, as contracts see it.
pub open spec fn issued(next: Option<Write<'_>>) -> Option<WriteView> {
    match next {
        Some(write) => Some(write@),
        None => None,
    }
}

} // verus!
