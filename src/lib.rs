//! Sorting the files of a directory tree into one folder per extension.
//!
//! The library holds the decisions of a run: which entries of the tree are
//! collected ([`collect`]), which folder each file belongs to ([`classify`]),
//! and how counts, per-file errors and the summary are kept ([`engine`]). The
//! caller performs the file-system work that these decisions call for and
//! reports back.
use vstd::prelude::*;

pub mod text;
pub mod classify;
pub mod collect;
pub mod engine;
pub mod listing;

pub use collect::{CollectStep, CollectedFile, Collector, EntryKind, ListedEntry};
pub use engine::{
    BucketStatus, ExtensionBucket, FileOperationMode, FileOrganizerCore, OrganizeRun,
    OrganizerResult,
};
pub use listing::{EntryDescription, PathProbe};

verus! {

/// The name of the directory, directly under the root, that receives the
/// buckets.
pub const OUTPUT_DIR: &'static str = "Organizer";

/// The state of the interactive front-end: the path picked so far.
pub struct ORganizer {
    pub ruta_seleccionada: String,
}

impl ORganizer {
    /// A front-end with no path picked.
    pub fn new() -> (r: Self)
        ensures
            r.ruta_seleccionada@.len() == 0,
    {
        ORganizer { ruta_seleccionada: String::new() }
    }
}

} // verus!
