//! Mesh loading and viewer-state logic for a small OBJ viewer.
//!
//! The library reads the line-oriented vertex/face text format, checks it,
//! fan-triangulates every polygon and builds the 16-bit index buffer; it also
//! holds the interactive transform state of a viewer session and the
//! decisions taken on each input event, reads the header of a BMP image, and
//! turns the bytes of an image file into a texture ready for upload.

pub mod text;
pub mod numbers;
pub mod obj;
pub mod controls;
pub mod bmp;
pub mod texture;
