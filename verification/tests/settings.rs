use asset_coordinator::error::{AssetLoadError, AssetServerError, ConfigurationError};
use asset_coordinator::ids::AssetTypeId;
use asset_coordinator::settings::{
    select_backend, AssetServerSettings, Backend, MAX_LOADER_THREADS,
};

#[test]
fn default_directory_is_assets() {
    match AssetServerSettings::default_directory() {
        AssetServerSettings::Directory(dir) => assert_eq!(dir, "assets"),
        other => panic!("expected a directory, got {:?}", other),
    }
}

#[test]
fn default_packfile_is_assets_pack() {
    match AssetServerSettings::default_packfile() {
        AssetServerSettings::Packfile(path) => assert_eq!(path, "assets.pack"),
        other => panic!("expected a packfile, got {:?}", other),
    }
}

#[test]
fn default_needs_no_daemon() {
    assert!(matches!(
        AssetServerSettings::default(),
        AssetServerSettings::Packfile(path) if path == "assets.pack"
    ));
    assert!(matches!(
        AssetServerSettings::default_for(false),
        AssetServerSettings::Packfile(path) if path == "assets.pack"
    ));
    assert!(matches!(
        AssetServerSettings::default_for(true),
        AssetServerSettings::Directory(dir) if dir == "assets"
    ));
}

#[test]
fn settings_can_be_cloned() {
    let settings = AssetServerSettings::Directory("art".to_string());
    assert!(matches!(settings.clone(), AssetServerSettings::Directory(dir) if dir == "art"));
}

#[test]
fn worker_pool_is_four() {
    assert_eq!(MAX_LOADER_THREADS, 4);
}

#[test]
fn packfile_selects_packfile_backend() {
    let settings = AssetServerSettings::Packfile("game.pack".to_string());
    for daemon in [false, true] {
        match select_backend(&settings, daemon) {
            Ok(Backend::Packfile { path }) => assert_eq!(path, "game.pack"),
            other => panic!("unexpected selection {:?}", other),
        }
    }
}

#[test]
fn directory_with_daemon_selects_daemon_backend() {
    let settings = AssetServerSettings::Directory("art".to_string());
    match select_backend(&settings, true) {
        Ok(Backend::Daemon { asset_dir, db_path, address }) => {
            assert_eq!(asset_dir, "art");
            assert_eq!(db_path, ".assets_db");
            assert_eq!(address, "127.0.0.1:9999");
        }
        other => panic!("unexpected selection {:?}", other),
    }
}

#[test]
fn directory_without_daemon_is_refused() {
    let settings = AssetServerSettings::Directory("art".to_string());
    assert_eq!(
        select_backend(&settings, false).err(),
        Some(ConfigurationError::DaemonUnavailable)
    );
    let empty = AssetServerSettings::Directory(String::new());
    assert_eq!(
        select_backend(&empty, false).err(),
        Some(ConfigurationError::DaemonUnavailable)
    );
}

#[test]
fn empty_root_is_refused() {
    let packfile = AssetServerSettings::Packfile(String::new());
    assert_eq!(
        select_backend(&packfile, false).err(),
        Some(ConfigurationError::InvalidRootPath)
    );
    let directory = AssetServerSettings::Directory(String::new());
    assert_eq!(
        select_backend(&directory, true).err(),
        Some(ConfigurationError::InvalidRootPath)
    );
}

#[test]
fn configuration_error_messages() {
    assert_eq!(ConfigurationError::InvalidRootPath.message(), "Invalid root path");
    assert_eq!(
        ConfigurationError::DaemonUnavailable.message(),
        "asset-daemon is required in order to load assets from a directory"
    );
}

#[test]
fn server_error_messages() {
    assert_eq!(
        AssetServerError::AssetFolderNotADirectory("x".to_string()).message(),
        "Asset folder path is not a directory."
    );
    assert_eq!(AssetServerError::InvalidRootPath.message(), "Invalid root path");
    assert_eq!(
        AssetServerError::MissingAssetHandler.message(),
        "No AssetHandler found for the given extension."
    );
    assert_eq!(
        AssetServerError::MissingAssetLoader.message(),
        "No AssetLoader found for the given extension."
    );
    assert_eq!(
        AssetServerError::MissingAssetRegistration(AssetTypeId(3)).message(),
        "No asset registration found for a loaded."
    );
    assert_eq!(
        AssetServerError::AssetLoadError(AssetLoadError::DecodeFailed).message(),
        "Encountered an error while loading an asset."
    );
    assert_eq!(
        AssetServerError::Io("disk".to_string()).message(),
        "Encountered an io error."
    );
    assert_eq!(
        AssetServerError::AssetWatchError { path: "art".to_string() }.message(),
        "Failed to watch asset folder."
    );
}

#[test]
fn load_error_converts_into_server_error() {
    let wrapped: AssetServerError = AssetLoadError::MalformedBytes.into();
    assert!(matches!(
        wrapped,
        AssetServerError::AssetLoadError(AssetLoadError::MalformedBytes)
    ));
}
