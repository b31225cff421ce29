//! Extraction of hyperlinks, with the visible text under each, and of the
//! outline (table of contents) from the object graph of a PDF document.
//!
//! The object graph and the positioned text runs of each page come from
//! outside; this crate walks the page annotations, resolves destinations,
//! matches link rectangles against text, and flattens the outline without
//! ever looping on a cyclic one.

pub mod analysis;
pub mod annotation;
pub mod destination;
pub mod geometry;
pub mod names;
pub mod object;
pub mod outline;
pub mod text;
