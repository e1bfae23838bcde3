//! Plain helper types shared with the embedding application's loaders.

use vstd::prelude::*;
use crate::script::ScriptTable;

verus! {

/// A path to an external file, or the file's text itself.
///
/// A plain string handed to a loader is taken to be a path; to pass text,
/// name the variant: `ExtFile::Str(text)`.
#[derive(Debug)]
pub enum ExtFile {
    /// A path to an external file that can be read.
    Path(String),
    /// Text that acts as the file's content.
    Str(String),
}

impl From<String> for ExtFile {
    /// A plain string is taken to be a path.
    fn from(text: String) -> ExtFile {
        ExtFile::Path(text)
    }
}

impl vstd::std_specs::convert::FromSpecImpl<String> for ExtFile {
    open spec fn obeys_from_spec() -> bool {
        true
    }

    open spec fn from_spec(text: String) -> ExtFile {
        ExtFile::Path(text)
    }
}

/// The scripts read from a manifest: the table of all scripts, and the
/// name of the one to select right away, if any.
pub struct ScriptsFromFile {
    /// The script to select after loading, if the manifest names one.
    pub default: Option<String>,
    /// All the scripts, by name.
    pub map: ScriptTable,
}

} // verus!
