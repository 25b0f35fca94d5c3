//! Typst source generation for office documents: pages with their headers
//! and footers, paragraphs and runs, and tables.
//!
//! Lengths throughout the model are held as integers in ten-thousandths of a
//! point, and percentages in ten-thousandths of a percent, so that every value
//! the generator prints is an exact decimal.
pub mod ir;
pub mod typst_text;
pub mod runs;
pub mod borders;
pub mod icons;
pub mod captions;
pub mod tables;
pub mod header_footer;
pub mod document;
pub mod laws;

use vstd::prelude::*;

verus! {

} // verus!
