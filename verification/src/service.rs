//! The state a browser-facing session works against: where the photographs
//! live, which photograph paths were found there, which location history is
//! loaded, and whether suggestions interpolate between fixes. The state is
//! plain data; finding the paths and loading the history are the
//! surrounding application's work, which hands the results in as values.

use vstd::prelude::*;

use crate::golo::GoogleLocationHistory;
use crate::text::str_eq;

verus! {

/// The mutable state behind a running session.
pub struct GuiServiceState {
    root_path: Option<String>,
    photo_paths: Vec<String>,
    location_history_path: Option<String>,
    location_history: GoogleLocationHistory,
    interpolate: bool,
}

impl GuiServiceState {
    pub closed spec fn spec_root_path(self) -> Option<String> {
        self.root_path
    }

    pub closed spec fn spec_photo_paths(self) -> Seq<String> {
        self.photo_paths@
    }

    pub closed spec fn spec_location_history_path(self) -> Option<String> {
        self.location_history_path
    }

    pub closed spec fn spec_location_history(self) -> GoogleLocationHistory {
        self.location_history
    }

    pub closed spec fn spec_interpolate(self) -> bool {
        self.interpolate
    }

    /// A session's state is kept well-formed: whatever history it holds is
    /// a valid index.
    pub open spec fn wf(self) -> bool {
        self.spec_location_history().wf()
    }

    /// A fresh state: nothing chosen, nothing loaded, only the
    /// interpolation switch set.
    pub fn with_interpolate(interpolate: bool) -> (r: GuiServiceState)
        ensures
            r.wf(),
            r.spec_root_path() is None,
            r.spec_photo_paths().len() == 0,
            r.spec_location_history_path() is None,
            r.spec_location_history().fixes().len() == 0,
            r.spec_interpolate() == interpolate,
    {
        GuiServiceState {
            root_path: None,
            photo_paths: Vec::new(),
            location_history_path: None,
            location_history: GoogleLocationHistory::default(),
            interpolate,
        }
    }

    pub fn root_path(&self) -> (r: Option<&String>)
        ensures
            match r {
                Some(p) => self.spec_root_path() == Some(*p),
                None => self.spec_root_path() is None,
            },
    {
        self.root_path.as_ref()
    }

    pub fn photo_paths(&self) -> (r: &Vec<String>)
        ensures
            r@ == self.spec_photo_paths(),
    {
        &self.photo_paths
    }

    pub fn location_history_path(&self) -> (r: Option<&String>)
        ensures
            match r {
                Some(p) => self.spec_location_history_path() == Some(*p),
                None => self.spec_location_history_path() is None,
            },
    {
        self.location_history_path.as_ref()
    }

    pub fn location_history(&self) -> (r: &GoogleLocationHistory)
        ensures
            r == self.spec_location_history(),
    {
        &self.location_history
    }

    pub fn interpolate(&self) -> (r: bool)
        ensures
            r == self.spec_interpolate(),
    {
        self.interpolate
    }

    /// Points the session at a new root: the root path and the photograph
    /// paths found under it (searching the disk is the caller's work)
    /// replace the old ones; everything else stays.
    pub fn search_new_root_path(&mut self, root_path: String, photo_paths: Vec<String>)
        requires
            old(self).wf(),
        ensures
            final(self).wf(),
            final(self).spec_root_path() == Some(root_path),
            final(self).spec_photo_paths() == photo_paths@,
            final(self).spec_location_history_path() == old(self).spec_location_history_path(),
            final(self).spec_location_history() == old(self).spec_location_history(),
            final(self).spec_interpolate() == old(self).spec_interpolate(),
    {
        self.photo_paths = photo_paths;
        self.root_path = Some(root_path);
    }

    /// Replaces the loaded location history and remembers where it came
    /// from (decoding the file is the caller's work); everything else
    /// stays. The session never mutates a history in place: a new snapshot
    /// replaces the old one wholesale.
    pub fn set_location_history(&mut self, path: String, history: GoogleLocationHistory)
        requires
            old(self).wf(),
            history.wf(),
        ensures
            final(self).wf(),
            final(self).spec_location_history_path() == Some(path),
            final(self).spec_location_history() == history,
            final(self).spec_root_path() == old(self).spec_root_path(),
            final(self).spec_photo_paths() == old(self).spec_photo_paths(),
            final(self).spec_interpolate() == old(self).spec_interpolate(),
    {
        self.location_history = history;
        self.location_history_path = Some(path);
    }

    /// Switches interpolation on or off; everything else stays.
    pub fn set_interpolate(&mut self, interpolate: bool)
        requires
            old(self).wf(),
        ensures
            final(self).wf(),
            final(self).spec_interpolate() == interpolate,
            final(self).spec_root_path() == old(self).spec_root_path(),
            final(self).spec_photo_paths() == old(self).spec_photo_paths(),
            final(self).spec_location_history_path() == old(self).spec_location_history_path(),
            final(self).spec_location_history() == old(self).spec_location_history(),
    {
        self.interpolate = interpolate;
    }
}

/// The file a request path asks for: the index page for the bare root
/// path, otherwise the path with its leading slash removed.
pub fn resolve_path(path: &str) -> (r: String)
    requires
        path@.len() >= 1,
    ensures
        path@ == "/"@ ==> r@ == "index.html"@,
        path@ != "/"@ ==> r@ == path@.subrange(1, path@.len() as int),
{
    if str_eq(path, "/") {
        String::from_str("index.html")
    } else {
        let n = path.unicode_len();
        let tail = path.substring_char(1, n);
        tail.to_owned()
    }
}

} // verus!
