//! Source locations.

use vstd::prelude::*;
use vstd::string::StringExecFns;

verus! {

/// What a location is, for contracts.
pub enum LocationView {
    /// Nothing is known of the source.
    Unknown,
    /// A file, a line and a column.
    File { file: Seq<char>, line: usize, column: usize },
}

/// Where in a source text something comes from.
#[derive(Debug)]
pub enum Location {
    /// Nothing is known of the source.
    Unknown,
    /// A file, a line and a column.
    File { file: String, line: usize, column: usize },
}

impl View for Location {
    type V = LocationView;

    open spec fn view(&self) -> LocationView {
        match self {
            Location::Unknown => LocationView::Unknown,
            Location::File { file, line, column } => LocationView::File {
                file: file@,
                line: *line,
                column: *column,
            },
        }
    }
}

impl Location {
    /// The location of a place in a file.
    pub fn new(file: &str, line: usize, column: usize) -> (location: Location)
        ensures
            location@ == (LocationView::File { file: file@, line, column }),
    {
        Location::File { file: String::from_str(file), line, column }
    }

    /// The location of which nothing is known.
    pub fn unknown() -> (location: Location)
        ensures
            location@ == LocationView::Unknown,
    {
        Location::Unknown
    }
}

impl Clone for Location {
    fn clone(&self) -> (copy: Location)
        ensures
            copy@ == self@,
    {
        match self {
            Location::Unknown => Location::Unknown,
            Location::File { file, line, column } => Location::File {
                file: file.clone(),
                line: *line,
                column: *column,
            },
        }
    }
}

} // verus!
