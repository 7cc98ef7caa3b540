//! The shape of a KML track document: a document holding one placemark
//! whose track alternates recording times and coordinate strings. These are
//! plain data carriers; reading them from a file is the surrounding
//! application's work.

use vstd::prelude::*;

verus! {

/// A whole KML file: one document.
#[derive(PartialEq, Eq, Debug)]
pub struct KML {
    pub document: Document,
}

/// The document inside a KML file: one placemark.
#[derive(PartialEq, Eq, Debug)]
pub struct Document {
    pub placemark: Placemark,
}

/// One placemark: whether it is shown open, and its recorded track.
#[derive(PartialEq, Eq, Debug)]
pub struct Placemark {
    pub open_state: String,
    pub track: Track,
}

/// A recorded track: its altitude mode, the recording times, and the
/// coordinate strings, kept in matching order.
#[derive(PartialEq, Eq, Debug)]
pub struct Track {
    pub altitude_mode: String,
    pub when: Vec<String>,
    pub coord: Vec<String>,
}

} // verus!
