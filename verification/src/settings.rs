//! Where the assets come from, and the choice of backend that follows.

use vstd::prelude::*;
use crate::error::ConfigurationError;

verus! {

/// How many workers fetch bytes at the same time.
pub const MAX_LOADER_THREADS: usize = 4;

/// Where the assets are read from.
#[derive(Debug)]
pub enum AssetServerSettings {
    /// A directory of source assets, watched by a local daemon.
    Directory(String),
    /// A single prebuilt archive, opened read-only.
    Packfile(String),
}

impl AssetServerSettings {
    /// The root path the setting names.
    pub open spec fn root(self) -> Seq<char> {
        match self {
            AssetServerSettings::Directory(dir) => dir@,
            AssetServerSettings::Packfile(path) => path@,
        }
    }

    /// The directory `assets`.
    pub fn default_directory() -> (settings: Self)
        ensures
            settings is Directory,
            settings.root() == "assets"@,
    {
        AssetServerSettings::Directory("assets".to_owned())
    }

    /// The archive `assets.pack`.
    pub fn default_packfile() -> (settings: Self)
        ensures
            settings is Packfile,
            settings.root() == "assets.pack"@,
    {
        AssetServerSettings::Packfile("assets.pack".to_owned())
    }

    /// The default directory where a daemon is available, the default
    /// archive where none is.
    pub fn default_for(daemon_available: bool) -> (settings: Self)
        ensures
            daemon_available ==> settings is Directory && settings.root() == "assets"@,
            !daemon_available ==> settings is Packfile && settings.root() == "assets.pack"@,
    {
        if daemon_available {
            Self::default_directory()
        } else {
            Self::default_packfile()
        }
    }
}

impl Clone for AssetServerSettings {
    fn clone(&self) -> (copy: Self)
        ensures
            copy is Directory == self is Directory,
            copy.root() == self.root(),
    {
        match self {
            AssetServerSettings::Directory(dir) => AssetServerSettings::Directory(dir.clone()),
            AssetServerSettings::Packfile(path) => AssetServerSettings::Packfile(path.clone()),
        }
    }
}

impl Default for AssetServerSettings {
    /// The default archive: the setting that needs no daemon.
    fn default() -> (settings: Self)
        ensures
            settings is Packfile,
            settings.root() == "assets.pack"@,
    {
        AssetServerSettings::default_packfile()
    }
}

/// The backend that a setting selects, with what is needed to start it.
#[derive(Debug)]
pub enum Backend {
    /// A daemon watches `asset_dir`, keeps its database at `db_path` and
    /// listens on `address`; bytes come over the connection to it.
    Daemon { asset_dir: String, db_path: String, address: String },
    /// Bytes are read from the archive at `path`.
    Packfile { path: String },
}

/// What `select_backend` returns for a setting.
pub open spec fn selection_matches(
    settings: AssetServerSettings,
    daemon_available: bool,
    selected: Result<Backend, ConfigurationError>,
) -> bool {
    match selected {
        Ok(Backend::Daemon { asset_dir, db_path, address }) => {
            &&& settings is Directory
            &&& daemon_available
            &&& settings.root().len() > 0
            &&& asset_dir@ == settings.root()
            &&& db_path@ == ".assets_db"@
            &&& address@ == "127.0.0.1:9999"@
        },
        Ok(Backend::Packfile { path }) => {
            &&& settings is Packfile
            &&& settings.root().len() > 0
            &&& path@ == settings.root()
        },
        Err(ConfigurationError::DaemonUnavailable) => {
            &&& settings is Directory
            &&& !daemon_available
        },
        Err(ConfigurationError::InvalidRootPath) => {
            &&& settings.root().len() == 0
            &&& (settings is Directory ==> daemon_available)
        },
    }
}

/// Chooses the backend for `settings`. A directory needs the daemon:
/// without one the setting is refused, whatever its path. Otherwise an
/// empty root path is refused: it names nothing.
pub fn select_backend(settings: &AssetServerSettings, daemon_available: bool) -> (selected: Result<
    Backend,
    ConfigurationError,
>)
    ensures
        selection_matches(*settings, daemon_available, selected),
{
    match settings {
        AssetServerSettings::Directory(dir) => {
            if !daemon_available {
                Err(ConfigurationError::DaemonUnavailable)
            } else if dir.as_str().is_empty() {
                Err(ConfigurationError::InvalidRootPath)
            } else {
                Ok(
                    Backend::Daemon {
                        asset_dir: dir.clone(),
                        db_path: ".assets_db".to_owned(),
                        address: "127.0.0.1:9999".to_owned(),
                    },
                )
            }
        },
        AssetServerSettings::Packfile(path) => {
            if path.as_str().is_empty() {
                Err(ConfigurationError::InvalidRootPath)
            } else {
                Ok(Backend::Packfile { path: path.clone() })
            }
        },
    }
}

} // verus!
