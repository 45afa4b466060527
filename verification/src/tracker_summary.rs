//! One entry of a distribution's vulnerability tracker.

use vstd::prelude::*;

verus! {

/// A tracker ticket in summary form: its key, the page where it can be
/// read, and its one-line summary.
#[derive(Debug)]
pub struct DistroTrackerSummary {
    pub id: String,
    pub url: String,
    pub summary: String,
}

impl DistroTrackerSummary {
    pub fn new(id: String, url: String, summary: String) -> (r: DistroTrackerSummary)
        ensures
            r.id@ == id@,
            r.url@ == url@,
            r.summary@ == summary@,
    {
        DistroTrackerSummary { id, url, summary }
    }
}

} // verus!
