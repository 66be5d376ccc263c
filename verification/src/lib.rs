//! A small molecule model: atoms and bonds in space, a JSON exchange format
//! for them, and the list of drawing steps that shows them on a flat surface.
//!
//! - [`molecule`]: atoms, bonds and molecules, and the colour table.
//! - [`coord`]: coordinates, held by their bit patterns.
//! - [`format`]: which document a molecule is, and which molecule a document
//!   is; reading undoes writing.
//! - [`reader`] and [`writer`]: molecules from and to JSON text.
//! - [`json`]: the border to `serde_json`, which reads and prints the text.
//! - [`decimal`]: the exact decimal expansion of a double.
//! - [`render`]: the drawing steps of a picture.
//! - [`viewer`]: the viewer, which holds what is shown.

pub mod coord;
pub mod decimal;
pub mod format;
pub mod json;
pub mod molecule;
pub mod reader;
pub mod render;
pub mod viewer;
pub mod writer;

pub use crate::coord::Coord;
pub use crate::decimal::Decimal;
pub use crate::format::{ReadFault, WriteFault};
pub use crate::molecule::{Atom, Bond, Molecule};
pub use crate::reader::ParseError;
pub use crate::render::{DrawCommand, Point, Surface};
pub use crate::viewer::{MolViewer, ViewerError};
pub use crate::writer::EncodeError;
