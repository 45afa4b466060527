//! A condensed CVE record, as the reports print it.

use vstd::prelude::*;

verus! {

/// One CVE in summary form: its identifier, whether the known-exploited
/// catalog lists it (when that catalog was consulted), its English
/// description, and its reference URLs.
#[derive(Debug)]
pub struct CveSummary {
    pub id: String,
    pub is_known_exploited_vuln: Option<bool>,
    pub description: String,
    pub urls: Vec<String>,
}

impl CveSummary {
    pub fn new(id: String, description: String, urls: Vec<String>) -> (r: CveSummary)
        ensures
            r.id@ == id@,
            r.is_known_exploited_vuln is None,
            r.description@ == description@,
            r.urls == urls,
    {
        CveSummary { id, is_known_exploited_vuln: None, description, urls }
    }
}

} // verus!
