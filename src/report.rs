//! The outcome of a tree-wide run: which files were done, and which failed
//! and why.
use vstd::prelude::*;

use crate::errors::BackupError;
use crate::registry::{decimal, decimal_text};

verus! {

/// The files a run handled, each under the text of its path.
pub struct RunReport {
    pub succeeded: Vec<String>,
    pub failed: Vec<(String, BackupError)>,
}

/// The words after the number of files done.
pub open spec fn done_words() -> Seq<char> {
    seq![' ', 's', 'u', 'c', 'c', 'e', 'e', 'd', 'e', 'd', ',', ' ']
}

/// The words after the number of files that failed.
pub open spec fn failed_words() -> Seq<char> {
    seq![' ', 'f', 'a', 'i', 'l', 'e', 'd']
}

impl RunReport {
    /// A report of a run that has handled nothing yet.
    pub fn new() -> (r: RunReport)
        ensures
            r.succeeded@.len() == 0,
            r.failed@.len() == 0,
    {
        RunReport { succeeded: Vec::new(), failed: Vec::new() }
    }

    /// Adds the outcome for the file at `path`.
    pub fn record(&mut self, path: String, outcome: Result<(), BackupError>)
        ensures
            outcome is Ok ==> final(self).succeeded@ == old(self).succeeded@.push(path)
                && final(self).failed@ == old(self).failed@,
            outcome matches Err(e) ==> final(self).failed@ == old(self).failed@.push((path, e))
                && final(self).succeeded@ == old(self).succeeded@,
    {
        match outcome {
            Ok(()) => self.succeeded.push(path),
            Err(e) => self.failed.push((path, e)),
        }
    }

    /// Whether every file was handled without failure.
    pub fn is_complete(&self) -> (r: bool)
        ensures
            r == (self.failed@.len() == 0),
    {
        self.failed.len() == 0
    }

    /// The counts in words: `<n> succeeded, <m> failed`.
    pub fn summary(&self) -> (r: String)
        ensures
            r@ == decimal_text(self.succeeded@.len()) + done_words() + decimal_text(
                self.failed@.len(),
            ) + failed_words(),
    {
        let mut r = decimal(self.succeeded.len() as u64);
        proof {
            reveal_strlit(" succeeded, ");
            reveal_strlit(" failed");
        }
        r.append(" succeeded, ");
        let failed = decimal(self.failed.len() as u64);
        r.append(failed.as_str());
        r.append(" failed");
        r
    }
}

} // verus!
