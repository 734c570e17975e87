//! Direct-I/O writing of a regularly chunked three-dimensional array.
//!
//! Direct I/O asks two things of every write: the buffer must start on a page
//! boundary and its length must be a whole number of pages. A chunk file, on
//! the other hand, must hold exactly the chunk's bytes. The writer in this
//! crate stages each chunk in one long-lived page-aligned buffer, pads it with
//! zero bytes to the next page boundary, has the padded buffer written, and
//! then has the file cut back to the chunk's true length.
//!
//! The crate decides and computes; it performs no file operation itself. A
//! caller drives [`writer::DirectWriter`] by performing the action it asks for
//! and reporting what happened.

pub mod page;
pub mod storage;
pub mod buffer;
pub mod descriptor;
pub mod key;
pub mod writer;
pub mod model;
pub mod compare;
pub mod data;
