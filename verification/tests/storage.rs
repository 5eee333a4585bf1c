use asset_coordinator::error::{AssetLoadError, AssetServerError};
use asset_coordinator::ids::{AssetTypeId, LoadHandle};
use asset_coordinator::registry::AssetTypeRegistry;
use asset_coordinator::storage::{Assets, Decode, Direct, RawBytes};

struct Text;

impl Decode for Text {
    type Asset = String;

    fn decode(&self, data: &Vec<u8>) -> Result<String, AssetLoadError> {
        if data.is_empty() {
            return Err(AssetLoadError::MalformedBytes);
        }
        String::from_utf8(data.clone()).map_err(|_| AssetLoadError::DecodeFailed)
    }
}

const TEXT: AssetTypeId = AssetTypeId(0x7465_7874);

#[test]
fn staged_value_is_not_visible() {
    let mut assets = Assets::new(Text);
    let id = LoadHandle(1);
    assert_eq!(assets.get(id), None);
    assert_eq!(assets.update_asset(id, b"one".to_vec(), 1), Ok(()));
    assert_eq!(assets.get(id), None);
    assert_eq!(assets.get_version(id), None);
}

#[test]
fn commit_switches_whole_value() {
    let mut assets = Assets::new(Text);
    let id = LoadHandle(1);
    assets.update_asset(id, b"one".to_vec(), 1).unwrap();
    assert!(assets.commit_asset_version(id, 1));
    assert_eq!(assets.get(id), Some(&"one".to_string()));
    assert_eq!(assets.get_version(id), Some(1));

    assets.update_asset(id, b"second value".to_vec(), 2).unwrap();
    assert_eq!(assets.get(id), Some(&"one".to_string()));
    assert_eq!(assets.get_version(id), Some(1));
    assert!(assets.commit_asset_version(id, 2));
    assert_eq!(assets.get(id), Some(&"second value".to_string()));
    assert_eq!(assets.get_version(id), Some(2));
}

#[test]
fn commit_of_another_version_changes_nothing() {
    let mut assets = Assets::new(Text);
    let id = LoadHandle(1);
    assert!(!assets.commit_asset_version(id, 1));
    assets.update_asset(id, b"one".to_vec(), 1).unwrap();
    assert!(!assets.commit_asset_version(id, 2));
    assert_eq!(assets.get(id), None);
    assert!(assets.commit_asset_version(id, 1));
    assert!(!assets.commit_asset_version(id, 1));
    assert_eq!(assets.get(id), Some(&"one".to_string()));
}

#[test]
fn failed_decode_changes_nothing() {
    let mut assets = Assets::new(Text);
    let id = LoadHandle(1);
    assets.update_asset(id, b"one".to_vec(), 1).unwrap();
    assets.commit_asset_version(id, 1);
    assert_eq!(
        assets.update_asset(id, vec![0xff, 0xfe], 2),
        Err(AssetLoadError::DecodeFailed)
    );
    assert_eq!(assets.update_asset(id, Vec::new(), 3), Err(AssetLoadError::MalformedBytes));
    assert!(!assets.commit_asset_version(id, 2));
    assert_eq!(assets.get(id), Some(&"one".to_string()));
    assert_eq!(assets.get_version(id), Some(1));
}

#[test]
fn free_releases_one_identifier() {
    let mut assets = Assets::new(Text);
    for (n, text) in [(1u64, "a"), (2, "b"), (3, "c")] {
        assets.update_asset(LoadHandle(n), text.as_bytes().to_vec(), 1).unwrap();
        assets.commit_asset_version(LoadHandle(n), 1);
    }
    assert!(assets.free(LoadHandle(2), 1));
    assert!(!assets.free(LoadHandle(2), 1));
    assert_eq!(assets.get(LoadHandle(1)), Some(&"a".to_string()));
    assert_eq!(assets.get(LoadHandle(2)), None);
    assert_eq!(assets.get(LoadHandle(3)), Some(&"c".to_string()));
}

#[test]
fn registry_routes_to_registered_storage() {
    let mut registry = AssetTypeRegistry::new();
    assert!(!registry.contains(TEXT));
    assert!(registry.register(TEXT, Direct));
    assert!(registry.contains(TEXT));
    assert!(!registry.register(TEXT, Direct));

    let mut assets = Assets::new(Text);
    let id = LoadHandle(5);
    assert!(registry.update_asset(&mut assets, TEXT, b"hi".to_vec(), id, 1).is_ok());
    assert_eq!(assets.get(id), None);
    assert!(registry.commit_asset_version(&mut assets, TEXT, id, 1));
    assert_eq!(assets.get(id), Some(&"hi".to_string()));
    assert!(matches!(
        registry.update_asset(&mut assets, TEXT, vec![0xff], id, 2),
        Err(AssetServerError::AssetLoadError(AssetLoadError::DecodeFailed))
    ));
    assert!(registry.free(&mut assets, TEXT, id, 1));
    assert_eq!(assets.get(id), None);
}

#[test]
fn registry_refuses_unregistered_type() {
    let mut registry = AssetTypeRegistry::new();
    registry.register(TEXT, Direct);
    let other = AssetTypeId(77);
    let mut assets = Assets::new(Text);
    let id = LoadHandle(5);
    assert!(matches!(
        registry.update_asset(&mut assets, other, b"hi".to_vec(), id, 1),
        Err(AssetServerError::MissingAssetRegistration(t)) if t == other
    ));
    assert!(!registry.commit_asset_version(&mut assets, other, id, 1));
    assert!(!registry.free(&mut assets, other, id, 1));
    assert!(!assets.commit_asset_version(id, 1));
    assert_eq!(assets.get(id), None);
}

#[test]
fn raw_bytes_are_kept_as_they_are() {
    assert_eq!(RawBytes.decode(&vec![1, 2, 3]), Ok(vec![1, 2, 3]));
    assert_eq!(RawBytes.decode(&Vec::new()), Ok(Vec::new()));
    let mut assets = Assets::new(RawBytes);
    let id = LoadHandle(8);
    assert_eq!(assets.update_asset(id, vec![9, 8, 7], 1), Ok(()));
    assert_eq!(assets.get(id), None);
    assert!(assets.commit_asset_version(id, 1));
    assert_eq!(assets.get(id), Some(&vec![9, 8, 7]));
}
