//! Parsing, validation and formatting of arXiv identifiers, categories and stamps.
use vstd::prelude::*;

pub mod category;
pub mod date;
pub mod decimal;
pub mod identifier;
pub mod stamp;
pub mod subject_tables;
pub mod text;

pub use crate::category::{ArxivArchive, ArxivCategoryId, ArxivGroup};
pub use crate::date::{CalendarDate, DateParseError};
pub use crate::identifier::{ArxivId, ArxivIdError, ArxivIdResult};
pub use crate::stamp::{ArxivStamp, ArxivStampError, ArxivStampResult};

verus! {

/// The versioned grammar that defines an arXiv identifier.
#[derive(Debug, Clone, Copy)]
pub enum ArxivIdScheme {
    /// Identifier scheme up to March 2007.
    Old,
    /// Identifier scheme since 1 April 2007.
    New,
}

} // verus!
