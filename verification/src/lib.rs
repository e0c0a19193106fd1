//! Display-cell model for a terminal emulator.
//!
//! A cell is one visually-addressable grid position: a grapheme cluster
//! together with its rendering attributes.  This crate provides
//! - the Unicode-version-sensitive column-width resolver
//!   ([`grapheme_column_width`], [`unicode_column_width`]),
//! - compact grapheme storage with an inline fast path and a heap
//!   fallback for long clusters ([`TeenyString`]),
//! - a packed attribute record with a lazily allocated overflow block for
//!   rare extras ([`CellAttributes`]), and
//! - the composed [`Cell`] value exchanged with the grid buffer and the
//!   renderer.

pub mod attrs;
pub mod cell;
pub mod color;
pub mod hyperlink;
pub mod image;
pub mod presentation;
pub mod storage;
pub mod width;

pub use attrs::{AttributeChange, Blink, CellAttributes, Intensity, SemanticType, Underline};
pub use cell::Cell;
pub use color::{ColorAttribute, PaletteIndex, RgbColor};
pub use hyperlink::Hyperlink;
pub use image::ImageCell;
pub use presentation::Presentation;
pub use storage::TeenyString;
pub use width::{grapheme_column_width, unicode_column_width, UnicodeVersion};
