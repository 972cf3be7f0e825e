//! The state of one controller and the operations on it.

use crate::command::{issued, Command, Write};
use crate::displayrotation::DisplayRotation;
use crate::displaysize::DisplaySize;
use crate::transfer::{step, Transfer, TransferView};
use crate::window::{Window, WindowView};
use display_interface::DisplayError;
use vstd::prelude::*;

verus! {

/// What the driver knows of one controller: the channel to it, the panel's
/// geometry and rotation, and the active window with its cursor.
///
/// No operation writes to the channel. An operation stores what it has to
/// store and returns a [`Transfer`], which holds the writes that carry it
/// out; `resume` hands them out one by one, each to be performed before the
/// next is asked for, and ends the operation at the first write that the
/// channel rejects. What an operation stores, it stores before its first
/// write; only the cursor moves as the writes of `draw` come through.
pub struct DisplayProperties<DI> {
    iface: DI,
    display_size: DisplaySize,
    display_rotation: DisplayRotation,
    window: Window,
}

/// A [`DisplayProperties`] as contracts see it.
pub struct PropertiesView<DI> {
    /// The channel to the controller.
    pub transport: DI,
    /// Geometry of the panel.
    pub size: DisplaySize,
    /// Rotation of the picture.
    pub rotation: DisplayRotation,
    /// The active window and the cursor in it.
    pub window: WindowView,
}

impl<DI> PropertiesView<DI> {
    /// Width and height of the picture: those of the panel, trading places
    /// when the picture is turned by one or three quarters.
    pub open spec fn dimensions(self) -> (u8, u8) {
        if self.rotation.swaps_axes() {
            (self.size.height(), self.size.width())
        } else {
            (self.size.width(), self.size.height())
        }
    }

    /// The commands that set up the controller, in the order they are sent:
    /// clock, geometry, the two remap bits of the rotation, pre-charge
    /// period, and panel on.
    pub open spec fn init_commands(self) -> Seq<Command> {
        seq![
            Command::DisplayClockDiv(0x6, 0x0),
            Command::DisplayResolution(self.size),
            Command::SegmentRemap(self.rotation.segment_remap()),
            Command::SetCommonScanDir(self.rotation.reverse_scan()),
            Command::PreChargePeriod(0x8, 0x2),
            Command::DisplayOn(true),
        ]
    }
}

impl<DI> View for DisplayProperties<DI> {
    type V = PropertiesView<DI>;

    closed spec fn view(&self) -> PropertiesView<DI> {
        PropertiesView {
            transport: self.iface,
            size: self.display_size,
            rotation: self.display_rotation,
            window: self.window@,
        }
    }
}

impl<DI> DisplayProperties<DI> {
    /// Creates the state for a controller reached over `iface`. The window
    /// is empty until `set_draw_area` sets one.
    pub fn new(iface: DI, display_size: DisplaySize, display_rotation: DisplayRotation) -> (properties: DisplayProperties<DI>)
        ensures
            properties@ == (PropertiesView {
                transport: iface,
                size: display_size,
                rotation: display_rotation,
                window: WindowView::at((0, 0), (0, 0)),
            }),
    {
        DisplayProperties { iface, display_size, display_rotation, window: Window::at((0, 0), (0, 0)) }
    }

    /// The channel to the controller, to perform writes on.
    pub fn interface(&mut self) -> (iface: &mut DI)
        ensures
            *iface == old(self)@.transport,
            final(self)@ == (PropertiesView { transport: *final(iface), ..old(self)@ }),
    {
        &mut self.iface
    }

    /// Gives the channel back and ends the session.
    pub fn release(self) -> (iface: DI)
        ensures
            iface == self@.transport,
    {
        self.iface
    }

    /// Initialises the controller in column mode, in which a byte walks down
    /// a column of 8 pixels, with column 0 on the left: sends the commands
    /// that set it up, the configured rotation among them.
    pub fn init_column_mode(&self) -> (transfer: Transfer<'static>)
        ensures
            transfer@ == TransferView::fresh(self@.init_commands(), Seq::empty()),
    {
        let (segment_remap, reverse_scan) = self.display_rotation.remap_bits();
        Transfer::of_commands(
            vec![
                Command::DisplayClockDiv(0x6, 0x0),
                Command::DisplayResolution(self.display_size),
                Command::SegmentRemap(segment_remap),
                Command::SetCommonScanDir(reverse_scan),
                Command::PreChargePeriod(0x8, 0x2),
                Command::DisplayOn(true),
            ],
        )
    }

    /// Makes `start .. end` the active window, puts the cursor at `start`,
    /// and sends the commands that point the controller there. This sets the
    /// area that `draw` fills, and where the next `draw` begins.
    ///
    /// The bounds are taken as given. A window that is to be drawn to needs
    /// `start` before `end` on both axes, and has to lie in the controller's
    /// memory.
    pub fn set_draw_area(&mut self, start: (u8, u8), end: (u8, u8)) -> (transfer: Transfer<'static>)
        ensures
            final(self)@ == (PropertiesView { window: WindowView::at(start, end), ..old(self)@ }),
            transfer@ == TransferView::fresh(WindowView::at(start, end).address(), Seq::empty()),
    {
        self.window = Window::at(start, end);
        let address: [Command; 3] = self.window.address();
        Transfer::of_commands(vec![address[0], address[1], address[2]])
    }

    /// Draws `buffer` at the cursor and moves the cursor past it. The bytes
    /// fill the window row by row; after the last row they go on in the
    /// first. The cursor moves as the transfer is carried out, not before.
    ///
    /// A buffer that is not empty needs a window that holds at least one
    /// column and one row.
    pub fn draw<'a>(&self, buffer: &'a [u8]) -> (transfer: Transfer<'a>)
        requires
            buffer@.len() > 0 ==> self@.window.is_open(),
        ensures
            transfer@ == TransferView::fresh(Seq::empty(), buffer@),
            transfer@.fits(self@.window),
    {
        Transfer::of_data(buffer)
    }

    /// Takes a transfer one step further. `outcome` says how the write
    /// handed out by the step before went; the first step of a transfer,
    /// with no write before it, is given `Ok`.
    ///
    /// After a write that the controller took, the step records what the
    /// write did and hands out the next one, as [`step`] says; `Ok(None)`
    /// means that the transfer is over and the operation done. After a
    /// write that the channel rejected, the step hands the channel's error
    /// back and changes nothing: the operation ends there, with the cursor
    /// where the writes that came through have taken it.
    pub fn resume<'a>(&mut self, transfer: &mut Transfer<'a>, outcome: Result<(), DisplayError>) -> (next: Result<Option<Write<'a>>, DisplayError>)
        requires
            old(transfer)@.fits(old(self)@.window),
        ensures
            outcome matches Err(error) ==> (next matches Err(returned) && returned == error),
            outcome is Err ==> final(self)@ == old(self)@ && final(transfer)@ == old(transfer)@,
            outcome is Ok ==> (next matches Ok(write) && issued(write) == step(
                old(self)@.window,
                old(transfer)@,
            ).write),
            outcome is Ok ==> final(self)@ == (PropertiesView {
                window: step(old(self)@.window, old(transfer)@).window,
                ..old(self)@
            }),
            outcome is Ok ==> final(transfer)@ == step(old(self)@.window, old(transfer)@).transfer,
            final(transfer)@.wf(),
            final(transfer)@.fits(final(self)@.window),
            final(self)@.window.wf(),
    {
        transfer.resume(&mut self.window, outcome)
    }

    /// The configured display size.
    pub fn get_size(&self) -> (size: DisplaySize)
        ensures
            size == self@.size,
    {
        self.display_size
    }

    /// Display dimensions, taking into account the current rotation of the
    /// display.
    pub fn get_dimensions(&self) -> (dimensions: (u8, u8))
        ensures
            dimensions == self@.dimensions(),
    {
        let (w, h) = self.display_size.dimensions();
        match self.display_rotation {
            DisplayRotation::Rotate0 | DisplayRotation::Rotate180 => (w, h),
            DisplayRotation::Rotate90 | DisplayRotation::Rotate270 => (h, w),
        }
    }

    /// The display rotation.
    pub fn get_rotation(&self) -> (rotation: DisplayRotation)
        ensures
            rotation == self@.rotation,
    {
        self.display_rotation
    }

    /// The active window: its first column and row, and the column and row
    /// just past it.
    pub fn get_draw_area(&self) -> (area: ((u8, u8), (u8, u8)))
        ensures
            area == (self@.window.start, self@.window.end),
    {
        self.window.bounds()
    }

    /// Column and row of the cursor.
    pub fn get_cursor(&self) -> (cursor: (u8, u8))
        ensures
            cursor == (self@.window.column, self@.window.row),
            self@.window.wf(),
    {
        self.window.cursor()
    }

    /// Stores the rotation and sends the two commands that make the
    /// controller agree with it: segment remap, then scan direction.
    pub fn set_rotation(&mut self, display_rotation: DisplayRotation) -> (transfer: Transfer<'static>)
        ensures
            final(self)@ == (PropertiesView { rotation: display_rotation, ..old(self)@ }),
            transfer@ == TransferView::fresh(
                seq![
                    Command::SegmentRemap(display_rotation.segment_remap()),
                    Command::SetCommonScanDir(display_rotation.reverse_scan()),
                ],
                Seq::empty(),
            ),
    {
        self.display_rotation = display_rotation;
        let (segment_remap, reverse_scan) = display_rotation.remap_bits();
        Transfer::of_commands(
            vec![Command::SegmentRemap(segment_remap), Command::SetCommonScanDir(reverse_scan)],
        )
    }

    /// Turns the panel on or off. The display can be drawn to and keeps its
    /// memory while off.
    pub fn display_on(&self, on: bool) -> (transfer: Transfer<'static>)
        ensures
            transfer@ == TransferView::fresh(seq![Command::DisplayOn(on)], Seq::empty()),
    {
        let commands: Vec<Command> = vec![Command::DisplayOn(on)];
        assert(commands@ =~= seq![Command::DisplayOn(on)]);
        Transfer::of_commands(commands)
    }

    /// Sets the display contrast.
    pub fn set_contrast(&self, contrast: u8) -> (transfer: Transfer<'static>)
        ensures
            transfer@ == TransferView::fresh(seq![Command::Contrast(contrast)], Seq::empty()),
    {
        let commands: Vec<Command> = vec![Command::Contrast(contrast)];
        assert(commands@ =~= seq![Command::Contrast(contrast)]);
        Transfer::of_commands(commands)
    }
}

} // verus!
