//! The errors of the coordinator, by the place where each arises.

use vstd::prelude::*;
use crate::ids::{AssetTypeId, LoadHandle};

verus! {

/// Why a staged value could not be produced from the bytes that arrived.
#[derive(Clone, Copy, Debug, PartialEq, Eq, Structural)]
pub enum AssetLoadError {
    /// The bytes do not have the shape the asset type asks for.
    MalformedBytes,
    /// The bytes were read but no value could be built from them.
    DecodeFailed,
    /// The slot has used every version number.
    VersionsExhausted,
}

/// A reference count was driven out of its range: a handle was released
/// twice, or more references exist than can be counted. Fatal to the pump.
#[derive(Clone, Copy, Debug, PartialEq, Eq, Structural)]
pub enum RefCountError {
    /// A `Decrease` arrived for an identifier whose count is zero.
    Underflow(LoadHandle),
    /// An `Increase` arrived for an identifier whose count is at its maximum.
    Overflow(LoadHandle),
}

/// A setting that cannot be served. Fatal at startup.
#[derive(Clone, Copy, Debug, PartialEq, Eq, Structural)]
pub enum ConfigurationError {
    /// The root path is empty.
    InvalidRootPath,
    /// A directory was asked for and no daemon is available to watch it.
    DaemonUnavailable,
}

impl ConfigurationError {
    pub open spec fn message_text(self) -> Seq<char> {
        match self {
            ConfigurationError::InvalidRootPath => "Invalid root path"@,
            ConfigurationError::DaemonUnavailable =>
                "asset-daemon is required in order to load assets from a directory"@,
        }
    }

    /// The text shown for the error.
    pub fn message(&self) -> (text: String)
        ensures
            text@ == self.message_text(),
    {
        match self {
            ConfigurationError::InvalidRootPath => "Invalid root path".to_owned(),
            ConfigurationError::DaemonUnavailable =>
                "asset-daemon is required in order to load assets from a directory".to_owned(),
        }
    }
}

/// Errors that occur while loading assets.
#[derive(Debug)]
pub enum AssetServerError {
    AssetFolderNotADirectory(String),
    InvalidRootPath,
    MissingAssetHandler,
    MissingAssetLoader,
    /// Bytes arrived for an asset type that nobody registered.
    MissingAssetRegistration(AssetTypeId),
    AssetLoadError(AssetLoadError),
    /// The backend failed to supply the bytes; the text is the backend's.
    Io(String),
    AssetWatchError { path: String },
}

impl AssetServerError {
    pub open spec fn message_text(self) -> Seq<char> {
        match self {
            AssetServerError::AssetFolderNotADirectory(_) =>
                "Asset folder path is not a directory."@,
            AssetServerError::InvalidRootPath => "Invalid root path"@,
            AssetServerError::MissingAssetHandler =>
                "No AssetHandler found for the given extension."@,
            AssetServerError::MissingAssetLoader =>
                "No AssetLoader found for the given extension."@,
            AssetServerError::MissingAssetRegistration(_) =>
                "No asset registration found for a loaded."@,
            AssetServerError::AssetLoadError(_) =>
                "Encountered an error while loading an asset."@,
            AssetServerError::Io(_) => "Encountered an io error."@,
            AssetServerError::AssetWatchError { .. } => "Failed to watch asset folder."@,
        }
    }

    /// The text shown for the error.
    pub fn message(&self) -> (text: String)
        ensures
            text@ == self.message_text(),
    {
        match self {
            AssetServerError::AssetFolderNotADirectory(_) =>
                "Asset folder path is not a directory.".to_owned(),
            AssetServerError::InvalidRootPath => "Invalid root path".to_owned(),
            AssetServerError::MissingAssetHandler =>
                "No AssetHandler found for the given extension.".to_owned(),
            AssetServerError::MissingAssetLoader =>
                "No AssetLoader found for the given extension.".to_owned(),
            AssetServerError::MissingAssetRegistration(_) =>
                "No asset registration found for a loaded.".to_owned(),
            AssetServerError::AssetLoadError(_) =>
                "Encountered an error while loading an asset.".to_owned(),
            AssetServerError::Io(_) => "Encountered an io error.".to_owned(),
            AssetServerError::AssetWatchError { .. } => "Failed to watch asset folder.".to_owned(),
        }
    }
}

impl From<AssetLoadError> for AssetServerError {
    fn from(error: AssetLoadError) -> (wrapped: Self) {
        AssetServerError::AssetLoadError(error)
    }
}

impl vstd::std_specs::convert::FromSpecImpl<AssetLoadError> for AssetServerError {
    open spec fn obeys_from_spec() -> bool {
        true
    }

    open spec fn from_spec(error: AssetLoadError) -> Self {
        AssetServerError::AssetLoadError(error)
    }
}

} // verus!
