//! A small library to create, read, modify and write comma-separated tables.
//!
//! Lines of text go into a [`CSVBuilder`], which splits them into fields and
//! yields a [`CSVFile`]: a header and rows of text cells that can be read and
//! replaced by position or by column name, and written back out as lines.
use vstd::prelude::*;

pub mod csv;
pub mod laws;
pub mod model;

pub use crate::model::BuilderModel;
pub use crate::csv::CSVBuilder;
pub use crate::csv::CSVFile;
pub use crate::model::TableModel;

verus! {

/// Creates an empty builder with the default settings: a comma as separator
/// and the first line read taken as the header.
pub fn new_csv_builder() -> (r: CSVBuilder)
    ensures
        r@ == (BuilderModel {
            header: Seq::empty(),
            rows: Seq::empty(),
            separator: ',',
            has_header: true,
        }),
{
    CSVBuilder::new()
}

} // verus!
