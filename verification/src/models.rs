//! Domain records: plain descriptors for the four reclaimable-file
//! categories, scan summaries, and OS services. All records are
//! ephemeral — recreated on every scan, never persisted.

use vstd::prelude::*;

verus! {

/// One file discovered inside a recognized cache directory.
#[derive(Clone, PartialEq, Debug)]
#[allow(non_snake_case)]
pub struct CacheFileModel {
    pub path: String,
    /// Size in bytes.
    pub size: u64,
    /// Last-modified timestamp, already rendered as text.
    pub modified: String,
}

/// One item currently in the OS trash/recycle store.
#[derive(Clone, PartialEq, Debug)]
#[allow(non_snake_case)]
pub struct TrashFileModel {
    pub name: String,
    pub path: String,
    pub size: u64,
    pub deletedDate: String,
}

/// One file discovered inside a recognized log directory.
#[derive(Clone, PartialEq, Debug)]
#[allow(non_snake_case)]
pub struct LogFileModel {
    pub path: String,
    pub size: u64,
    pub modified: String,
}

/// A file exceeding a size threshold, found during a broad sweep.
#[derive(Clone, PartialEq, Debug)]
#[allow(non_snake_case)]
pub struct LargeFileModel {
    pub name: String,
    pub path: String,
    pub size: u64,
    pub modified: String,
}

/// Derived summary of one category's scan: never persisted, recomputed
/// per request, and always equal to `(sum of sizes, length of list)` for
/// the scan it was folded from.
#[derive(Clone, Copy, PartialEq, Eq, Structural, Debug)]
#[allow(non_snake_case)]
pub struct ScanSummaryModel {
    pub totalSize: u64,
    pub fileCount: usize,
}

/// One OS-level background service, as queried from the service manager.
#[derive(PartialEq, Debug)]
#[allow(non_snake_case)]
pub struct SystemServiceModel {
    pub name: String,
    pub description: String,
    /// Free-text state label as the service manager reports it.
    pub status: String,
    /// Derived boolean: whether the service is currently running.
    pub isRunning: bool,
}

impl Clone for SystemServiceModel {
    fn clone(&self) -> (r: Self)
        ensures
            r == *self,
    {
        SystemServiceModel {
            name: self.name.clone(),
            description: self.description.clone(),
            status: self.status.clone(),
            isRunning: self.isRunning,
        }
    }
}

/// Aggregate of everything one full inventory pass can produce.
#[derive(Clone, PartialEq, Debug)]
#[allow(non_snake_case)]
pub struct SystemDataModel {
    pub services: Vec<SystemServiceModel>,
    pub cacheFiles: Vec<CacheFileModel>,
    pub trashFiles: Vec<TrashFileModel>,
    pub logFiles: Vec<LogFileModel>,
    pub largeFiles: Vec<LargeFileModel>,
}

} // verus!
