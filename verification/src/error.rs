//! The errors of the crate.
//!
//! Loading a script can fail on the file or on the text; loading the
//! various configuration tables can fail the same two ways.  The variants
//! carry no payload beyond the failing position: the embedding application
//! owns the underlying file and decoder errors and reports them itself.

use vstd::prelude::*;

verus! {

/// An error from importing a script text.
#[derive(Debug, Clone, Copy, PartialEq, Eq, Structural)]
pub enum ScriptImportError {
    /// The file could not be opened or read.
    Io,
    /// The text is not in the script grammar; the payload is the position
    /// (in characters) of the first text no instruction or anchor header
    /// matches.
    Syntax(usize),
}

/// An error from reading a configuration table.
#[derive(Debug, Clone, Copy, PartialEq, Eq, Structural)]
pub enum ConfigImportError {
    /// The file could not be opened or read.
    Io,
    /// The configuration text is not a well-formed table.
    Toml,
}

/// An error from reading the scripts manifest or one of the script files
/// it names.
#[derive(Debug, Clone, Copy, PartialEq, Eq, Structural)]
pub enum ScriptConfigImportError {
    /// A file could not be opened or read.
    Io,
    /// A script text is not in the grammar; the payload is the failing
    /// position.
    Syntax(usize),
    /// The manifest is not a well-formed table.
    Toml,
}

impl From<ConfigImportError> for ScriptConfigImportError {
    /// Keeps the kind of the error.
    fn from(err: ConfigImportError) -> ScriptConfigImportError {
        match err {
            ConfigImportError::Io => ScriptConfigImportError::Io,
            ConfigImportError::Toml => ScriptConfigImportError::Toml,
        }
    }
}

impl vstd::std_specs::convert::FromSpecImpl<ConfigImportError> for ScriptConfigImportError {
    open spec fn obeys_from_spec() -> bool {
        true
    }

    open spec fn from_spec(err: ConfigImportError) -> ScriptConfigImportError {
        match err {
            ConfigImportError::Io => ScriptConfigImportError::Io,
            ConfigImportError::Toml => ScriptConfigImportError::Toml,
        }
    }
}

impl From<ScriptImportError> for ScriptConfigImportError {
    /// Keeps the kind, and the failing position, of the error.
    fn from(err: ScriptImportError) -> ScriptConfigImportError {
        match err {
            ScriptImportError::Io => ScriptConfigImportError::Io,
            ScriptImportError::Syntax(p) => ScriptConfigImportError::Syntax(p),
        }
    }
}

impl vstd::std_specs::convert::FromSpecImpl<ScriptImportError> for ScriptConfigImportError {
    open spec fn obeys_from_spec() -> bool {
        true
    }

    open spec fn from_spec(err: ScriptImportError) -> ScriptConfigImportError {
        match err {
            ScriptImportError::Io => ScriptConfigImportError::Io,
            ScriptImportError::Syntax(p) => ScriptConfigImportError::Syntax(p),
        }
    }
}

/// An error from building a whole game out of its configuration files.
#[derive(Debug, Clone, Copy, PartialEq, Eq, Structural)]
pub enum GameBuildError {
    /// Importing the interface layout failed.
    Gui(ConfigImportError),
    /// Importing the backgrounds failed.
    Backgrounds(ConfigImportError),
    /// Importing the characters failed.
    Characters(ConfigImportError),
    /// Importing the scripts failed.
    Story(ScriptConfigImportError),
    /// Importing the input bindings failed.
    Input(ConfigImportError),
    /// Importing the music failed.
    Music(ConfigImportError),
    /// Importing the transitions failed.
    Transition(ConfigImportError),
}

impl From<ScriptConfigImportError> for GameBuildError {
    /// A script import error is a story error.
    fn from(err: ScriptConfigImportError) -> GameBuildError {
        GameBuildError::Story(err)
    }
}

impl vstd::std_specs::convert::FromSpecImpl<ScriptConfigImportError> for GameBuildError {
    open spec fn obeys_from_spec() -> bool {
        true
    }

    open spec fn from_spec(err: ScriptConfigImportError) -> GameBuildError {
        GameBuildError::Story(err)
    }
}

/// An error from playing music.
#[derive(Debug, Clone, Copy, PartialEq, Eq, Structural)]
pub enum MusicError {
    /// No output device for playing music was found.
    NoDefaultOutputDeviceFound,
    /// The music data could not be decoded.
    Decoder,
    /// The file could not be opened or read.
    Io,
}

} // verus!
