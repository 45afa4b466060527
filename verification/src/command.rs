//! The commands the scanner offers, as plain data; the argument parser
//! around the library fills them in.

use vstd::prelude::*;

verus! {

/// Where the CPE match feed lives on disk.
#[derive(Debug)]
pub struct CpeFeedOpt {
    pub feed_dir: String,
}

/// One invocation of the scanner.
#[derive(Debug)]
pub enum Command {
    /// Synchronizes the CPE match feed.
    Sync { cpe_feed: CpeFeedOpt },
    /// Provides valid and existing CPEs for a package batch.
    Cpe { packages_batch: Option<String>, cpe_feed: CpeFeedOpt },
    /// Lists CVEs for given CPEs.
    Cve { cpe_batch: Option<String>, summary: bool, check_known_exploited: bool },
    /// Scans for CVEs in software installed by the OS package manager.
    Scan {
        cpe_feed: CpeFeedOpt,
        out_dir: Option<String>,
        pkg_dir: Option<String>,
        recursive: bool,
    },
    /// Prints the known-exploited-vulnerabilities catalog.
    KnownExploitedVulns,
    /// Prints the contents of the OS vulnerability tracker.
    Tracker,
}

} // verus!
