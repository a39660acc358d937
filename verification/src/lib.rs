//! Position and length arithmetic for spans of text, kept simultaneously in
//! four encodings: raw UTF-8 storage units, Unicode scalar values, extended
//! grapheme clusters, and UTF-16 code units.
//!
//! A caller that holds an offset or span in one encoding can read off the
//! equivalent span in any other, and ranges for consecutive text segments can
//! be threaded together positionally without rescanning earlier text.


pub mod api;
pub mod length;
pub mod range;
pub mod sequence;
pub mod string_range;

pub use api::length;
pub use api::range_from_point;
pub use api::range_from_range;
pub use api::replace;
pub use api::shift_after;
pub use length::SLLength;
pub use range::SLRange;
pub use sequence::ranges;
pub use string_range::SLStringRange;
