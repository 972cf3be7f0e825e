//! Addressing core of a driver for SH1108 OLED controllers.
//!
//! The controller is driven over a write-only channel that carries two
//! kinds of writes: commands and pixel data. This crate holds everything
//! the driver decides: which commands configure the panel, where the write
//! cursor stands inside the active window, and how a pixel buffer is cut
//! into row segments with the addressing commands sent between them. It
//! performs no write itself. Each operation hands the caller its writes
//! one by one, is told how each of them went, and ends at the first one
//! that the channel rejects.
//!
//! Every function is verified against the model in [`window`] and
//! [`transfer`]; [`stream`] states what a whole operation looks like and
//! proves it of the step function.

pub mod channel;
pub mod command;
pub mod displayrotation;
pub mod displaysize;
pub mod properties;
pub mod stream;
pub mod transfer;
pub mod window;

pub use command::{Command, Write, WriteView};
pub use displayrotation::DisplayRotation;
pub use displaysize::DisplaySize;
pub use properties::{DisplayProperties, PropertiesView};
pub use transfer::{Phase, Step, Transfer, TransferView};
pub use window::WindowView;
