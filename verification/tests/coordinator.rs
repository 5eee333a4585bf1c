use asset_coordinator::channel::{RefOp, RefOpChannel};
use asset_coordinator::error::{AssetLoadError, AssetServerError, ConfigurationError, RefCountError};
use asset_coordinator::handle::{GenericHandle, Handle};
use asset_coordinator::ids::{AssetTypeId, LoadHandle};
use asset_coordinator::indirect::{IndirectionTable, Resolution};
use asset_coordinator::registry::{AssetTypeRegistry, StorageVisitor};
use asset_coordinator::server::AssetServer;
use asset_coordinator::settings::{AssetServerSettings, Backend};
use asset_coordinator::slot::{LoadStatus, SlotAction};
use asset_coordinator::storage::{Assets, Decode};

struct Text;

impl Decode for Text {
    type Asset = String;

    fn decode(&self, data: &Vec<u8>) -> Result<String, AssetLoadError> {
        String::from_utf8(data.clone()).map_err(|_| AssetLoadError::DecodeFailed)
    }
}

/// The host's resource set: one storage, and a count of the releases.
struct World {
    texts: Assets<Text>,
    updates: Vec<LoadHandle>,
    commits: Vec<LoadHandle>,
    frees: Vec<LoadHandle>,
}

struct Texts;

impl StorageVisitor<World> for Texts {
    fn update_asset(
        &self,
        resources: &mut World,
        load_handle: LoadHandle,
        data: Vec<u8>,
        version: u32,
    ) -> Result<(), AssetLoadError> {
        resources.updates.push(load_handle);
        resources.texts.update_asset(load_handle, data, version)
    }

    fn commit_asset_version(&self, resources: &mut World, load_handle: LoadHandle, version: u32) {
        resources.commits.push(load_handle);
        resources.texts.commit_asset_version(load_handle, version);
    }

    fn free(&self, resources: &mut World, load_handle: LoadHandle, version: u32) {
        resources.frees.push(load_handle);
        resources.texts.free(load_handle, version);
    }
}

const TEXT: AssetTypeId = AssetTypeId(0x7465_7874);

fn world() -> World {
    World { texts: Assets::new(Text), updates: Vec::new(), commits: Vec::new(), frees: Vec::new() }
}

fn registry() -> AssetTypeRegistry<Texts> {
    let mut registry = AssetTypeRegistry::new();
    assert!(registry.register(TEXT, Texts));
    registry
}

fn server() -> AssetServer {
    AssetServer::new(&AssetServerSettings::default_packfile(), false).unwrap()
}

#[test]
fn new_server_keeps_selected_backend() {
    let server = server();
    assert!(matches!(server.backend(), Backend::Packfile { path } if path == "assets.pack"));
    let daemon = AssetServer::new(&AssetServerSettings::default_directory(), true).unwrap();
    assert!(matches!(daemon.backend(), Backend::Daemon { asset_dir, .. } if asset_dir == "assets"));
}

#[test]
fn new_server_refuses_directory_without_daemon() {
    let refused = AssetServer::new(&AssetServerSettings::default_directory(), false);
    assert_eq!(refused.err(), Some(ConfigurationError::DaemonUnavailable));
    let empty = AssetServer::new(&AssetServerSettings::Packfile(String::new()), true);
    assert_eq!(empty.err(), Some(ConfigurationError::InvalidRootPath));
}

#[test]
fn handle_operations_reach_the_pump() {
    let mut server = server();
    let id = LoadHandle(40);
    let first: GenericHandle = server.get_handle_untyped(id);
    assert_eq!(first.load_handle(), id);
    assert_eq!(server.ref_count(id), 0);

    let report = server.apply_pending();
    assert_eq!(report.applied, vec![RefOp::Increase(id)]);
    assert_eq!(report.error, None);
    assert_eq!(server.ref_count(id), 1);

    let second = first.clone();
    let typed: Handle<String> = server.get_handle(id);
    assert_eq!(second.load_handle(), id);
    assert_eq!(typed.load_handle(), id);
    drop(first);
    let report = server.apply_pending();
    assert_eq!(
        report.applied,
        vec![RefOp::Increase(id), RefOp::Increase(id), RefOp::Decrease(id)]
    );
    assert_eq!(server.ref_count(id), 2);

    drop(second);
    drop(typed);
    let report = server.apply_pending();
    assert_eq!(report.applied, vec![RefOp::Decrease(id), RefOp::Decrease(id)]);
    assert_eq!(report.error, None);
    assert_eq!(server.ref_count(id), 0);
    assert!(server.apply_pending().applied.is_empty());
}

#[test]
fn changing_the_type_of_a_handle_counts_nothing() {
    let mut server = server();
    let id = LoadHandle(3);
    let untyped = server.get_handle_untyped(id);
    let typed: Handle<u8> = untyped.typed();
    assert_eq!(typed.load_handle(), id);
    let back = typed.untyped();
    assert_eq!(back.load_handle(), id);
    assert_eq!(server.apply_pending().applied, vec![RefOp::Increase(id)]);
    assert_eq!(server.ref_count(id), 1);
    drop(back);
    assert_eq!(server.apply_pending().applied, vec![RefOp::Decrease(id)]);
    assert_eq!(server.ref_count(id), 0);
}

#[test]
fn count_equals_constructions_minus_destructions() {
    let mut server = server();
    let id = LoadHandle(9);
    let mut live: Vec<GenericHandle> = Vec::new();
    for round in 0..5 {
        live.push(server.get_handle_untyped(id));
        let copy = live[0].clone();
        live.push(copy);
        if round % 2 == 1 {
            live.pop();
            live.pop();
            live.pop();
        }
        let report = server.apply_pending();
        assert_eq!(report.error, None);
        assert_eq!(server.ref_count(id), live.len() as u64);
    }
    live.clear();
    assert_eq!(server.apply_pending().error, None);
    assert_eq!(server.ref_count(id), 0);
}

#[test]
fn double_release_is_reported() {
    let mut server = server();
    let id = LoadHandle(9);
    let tx = server.ref_op_tx();
    tx.send(RefOp::Increase(id)).unwrap();
    tx.send(RefOp::Decrease(id)).unwrap();
    tx.send(RefOp::Decrease(id)).unwrap();
    let registry = registry();
    let mut world = world();
    let report = server.process_system(&registry, &mut world);
    assert_eq!(report.pump.error, Some(RefCountError::Underflow(id)));
    assert_eq!(report.pump.applied.len(), 3);
    assert!(report.events.is_empty());
    assert_eq!(server.ref_count(id), 0);
}

#[test]
fn same_name_resolves_to_same_identifier() {
    let mut server = server();
    let first: Handle<String> = server.load("logo.png");
    let second: Handle<String> = server.load("logo.png");
    let other = server.load_untyped("font.ttf");
    assert_eq!(first.load_handle(), LoadHandle(1));
    assert_eq!(second.load_handle(), first.load_handle());
    assert_eq!(other.load_handle(), LoadHandle(2));

    let registry = registry();
    let mut world = world();
    let report = server.process_system(&registry, &mut world);
    assert_eq!(report.pump.applied.len(), 3);
    assert_eq!(server.ref_count(first.load_handle()), 2);
    assert_eq!(server.ref_count(other.load_handle()), 1);
    let mut fetches: Vec<u64> = report
        .events
        .iter()
        .filter(|event| event.action == SlotAction::Fetch)
        .map(|event| event.load_handle.0)
        .collect();
    fetches.sort();
    assert_eq!(fetches, vec![1, 2]);

    let third = server.load_untyped("logo.png");
    assert_eq!(third.load_handle(), LoadHandle(1));
    let report = server.process_system(&registry, &mut world);
    assert!(report.events.is_empty());
}

#[test]
fn load_request_names_the_locator() {
    let mut server = server();
    assert!(server.can_load("logo.png"));
    let handle = server.load_untyped("logo.png");
    let request = server.load_request(handle.load_handle());
    assert_eq!(request.load_handle, handle.load_handle());
    assert_eq!(request.locator, Some("logo.png".to_string()));
    let unnamed = server.load_request(LoadHandle(77));
    assert_eq!(unnamed.load_handle, LoadHandle(77));
    assert_eq!(unnamed.locator, None);

    let info = server.asset_info(handle.load_handle()).unwrap();
    assert_eq!(info.load_handle, handle.load_handle());
    assert_eq!(info.path, "logo.png");
    assert_eq!(info.load_state, LoadStatus::Loading);
    assert!(server.asset_info(LoadHandle(77)).is_none());
}

#[test]
fn indirection_table_resolves_once() {
    let mut table = IndirectionTable::new();
    assert!(table.is_resolvable("a"));
    assert_eq!(table.lookup("a"), None);
    assert_eq!(table.resolve("a"), Resolution { load_handle: LoadHandle(1), fresh: true });
    assert_eq!(table.resolve("b"), Resolution { load_handle: LoadHandle(2), fresh: true });
    assert_eq!(table.resolve("a"), Resolution { load_handle: LoadHandle(1), fresh: false });
    assert_eq!(table.lookup("a"), Some(LoadHandle(1)));
    assert_eq!(table.lookup("b"), Some(LoadHandle(2)));
    assert_eq!(table.lookup("c"), None);
    assert_eq!(table.locator(LoadHandle(2)), Some("b".to_string()));
    assert_eq!(table.locator(LoadHandle(3)), None);
}

#[test]
fn handle_is_usable_before_bytes_arrive() {
    let mut server = server();
    let registry = registry();
    let mut world = world();
    let handle: Handle<String> = server.load("greeting.txt");
    let id = handle.load_handle();
    assert_eq!(server.load_status(id), LoadStatus::Loading);
    assert_eq!(world.texts.get(id), None);
    let copy = handle.clone();
    assert_eq!(copy.load_handle(), id);
    for _ in 0..3 {
        server.process_system(&registry, &mut world);
        assert_eq!(server.load_status(id), LoadStatus::Loading);
        assert_eq!(server.committed_version(id), None);
        assert_eq!(world.texts.get(id), None);
    }
    assert!(server.deliver(id, TEXT, b"hello".to_vec()));
    assert_eq!(server.load_status(id), LoadStatus::Loading);
    assert_eq!(world.texts.get(id), None);
}

#[test]
fn load_commit_and_free_end_to_end() {
    let mut server = server();
    let registry = registry();
    let mut world = world();
    let handle: Handle<String> = server.load("greeting.txt");
    let id = handle.load_handle();

    let report = server.process_system(&registry, &mut world);
    assert_eq!(report.pump.applied, vec![RefOp::Increase(id)]);
    assert_eq!(report.events.len(), 1);
    assert_eq!(report.events[0].action, SlotAction::Fetch);
    assert_eq!(server.load_request(id).locator, Some("greeting.txt".to_string()));

    assert!(server.deliver(id, TEXT, b"hello".to_vec()));
    let mut cycles = 0;
    while server.load_status(id) != LoadStatus::Loaded {
        server.process_system(&registry, &mut world);
        cycles += 1;
        assert!(cycles < 10);
    }
    assert_eq!(server.committed_version(id), Some(1));
    assert_eq!(world.texts.get(id), Some(&"hello".to_string()));
    assert_eq!(world.texts.get_version(id), Some(1));
    assert_eq!(world.updates, vec![id]);
    assert_eq!(world.commits, vec![id]);
    assert!(world.frees.is_empty());

    server.process_system(&registry, &mut world);
    assert!(world.frees.is_empty());

    drop(handle);
    let report = server.process_system(&registry, &mut world);
    assert_eq!(report.pump.applied, vec![RefOp::Decrease(id)]);
    assert_eq!(report.events.len(), 1);
    assert_eq!(report.events[0].action, SlotAction::Free { asset_type: TEXT, version: 1 });
    assert_eq!(world.frees, vec![id]);
    assert_eq!(world.texts.get(id), None);

    for _ in 0..3 {
        assert!(server.process_system(&registry, &mut world).events.is_empty());
    }
    assert_eq!(world.frees, vec![id]);
    assert_eq!(server.recycle(), vec![id]);
    assert_eq!(server.load_status(id), LoadStatus::NotRequested);
    assert!(server.recycle().is_empty());
}

#[test]
fn reference_in_same_cycle_prevents_free() {
    let mut server = server();
    let registry = registry();
    let mut world = world();
    let handle = server.load_untyped("greeting.txt");
    let id = handle.load_handle();
    server.process_system(&registry, &mut world);
    server.deliver(id, TEXT, b"hello".to_vec());
    server.process_system(&registry, &mut world);
    assert_eq!(server.load_status(id), LoadStatus::Loaded);

    drop(handle);
    let again = server.get_handle_untyped(id);
    let report = server.process_system(&registry, &mut world);
    assert_eq!(report.pump.applied, vec![RefOp::Decrease(id), RefOp::Increase(id)]);
    assert!(report.events.is_empty());
    assert!(world.frees.is_empty());
    assert_eq!(server.ref_count(id), 1);
    assert_eq!(again.load_handle(), id);
}

#[test]
fn unregistered_type_is_reported_and_touches_nothing() {
    let mut server = server();
    let registry = registry();
    let mut world = world();
    let handle = server.load_untyped("model.obj");
    let id = handle.load_handle();
    server.process_system(&registry, &mut world);
    let unknown = AssetTypeId(0x6d6f_6465);
    assert!(server.deliver(id, unknown, b"v 0 0 0".to_vec()));
    let report = server.process_system(&registry, &mut world);
    assert_eq!(report.events.len(), 1);
    assert_eq!(report.events[0].load_handle, id);
    assert!(matches!(
        report.events[0].error,
        Some(AssetServerError::MissingAssetRegistration(t)) if t == unknown
    ));
    assert!(world.updates.is_empty());
    assert!(world.commits.is_empty());
    assert!(world.frees.is_empty());
    assert_eq!(world.texts.get(id), None);
    assert_eq!(server.load_status(id), LoadStatus::Error);
    assert!(server.process_system(&registry, &mut world).events.is_empty());
}

#[test]
fn failed_decode_is_retried_afresh() {
    let mut server = server();
    let registry = registry();
    let mut world = world();
    let handle: Handle<String> = server.load("greeting.txt");
    let id = handle.load_handle();
    server.process_system(&registry, &mut world);
    assert!(server.deliver(id, TEXT, vec![0xff, 0xfe, 0xfd]));
    let report = server.process_system(&registry, &mut world);
    assert_eq!(report.events.len(), 1);
    assert_eq!(report.events[0].action, SlotAction::Decode { asset_type: TEXT, version: 1 });
    assert!(matches!(
        report.events[0].error,
        Some(AssetServerError::AssetLoadError(AssetLoadError::DecodeFailed))
    ));
    assert_eq!(server.load_status(id), LoadStatus::Error);
    assert_eq!(server.committed_version(id), None);
    assert_eq!(world.texts.get(id), None);
    assert!(world.commits.is_empty());

    assert!(server.process_system(&registry, &mut world).events.is_empty());
    assert_eq!(server.load_status(id), LoadStatus::Error);

    let retry: Handle<String> = server.load("greeting.txt");
    assert_eq!(retry.load_handle(), id);
    assert_eq!(server.load_status(id), LoadStatus::Loading);
    let report = server.process_system(&registry, &mut world);
    assert_eq!(report.events.len(), 1);
    assert_eq!(report.events[0].action, SlotAction::Fetch);
    assert!(server.deliver(id, TEXT, b"fixed".to_vec()));
    let report = server.process_system(&registry, &mut world);
    assert_eq!(report.events[0].action, SlotAction::Decode { asset_type: TEXT, version: 2 });
    assert!(report.events[0].error.is_none());
    assert_eq!(server.committed_version(id), Some(2));
    assert_eq!(world.texts.get(id), Some(&"fixed".to_string()));
    assert_eq!(world.texts.get_version(id), Some(2));
}

#[test]
fn failed_fetch_fails_only_its_request() {
    let mut server = server();
    let registry = registry();
    let mut world = world();
    let good = server.load_untyped("good.txt");
    let bad = server.load_untyped("bad.txt");
    server.process_system(&registry, &mut world);
    assert!(server.fail_fetch(bad.load_handle()));
    assert!(server.deliver(good.load_handle(), TEXT, b"ok".to_vec()));
    server.process_system(&registry, &mut world);
    assert_eq!(server.load_status(bad.load_handle()), LoadStatus::Error);
    assert_eq!(server.load_status(good.load_handle()), LoadStatus::Loaded);
    assert_eq!(world.texts.get(good.load_handle()), Some(&"ok".to_string()));
}

#[test]
fn direct_load_of_known_identifier() {
    let mut server = server();
    let registry = registry();
    let mut world = world();
    let id = LoadHandle(500);
    let handle: Handle<String> = server.load_direct(id);
    let second = server.load_direct_untyped(id);
    assert_eq!(handle.load_handle(), id);
    assert_eq!(second.load_handle(), id);
    assert_eq!(server.load_status(id), LoadStatus::Loading);

    let report = server.process_system(&registry, &mut world);
    assert_eq!(report.events.len(), 1);
    assert_eq!(report.events[0].load_handle, id);
    assert_eq!(report.events[0].action, SlotAction::Fetch);
    assert_eq!(server.ref_count(id), 2);
    assert_eq!(server.load_request(id).locator, None);

    assert!(server.deliver(id, TEXT, b"by id".to_vec()));
    server.process_system(&registry, &mut world);
    assert_eq!(server.load_status(id), LoadStatus::Loaded);
    assert_eq!(world.texts.get(id), Some(&"by id".to_string()));

    drop(handle);
    server.process_system(&registry, &mut world);
    assert!(world.frees.is_empty());
    drop(second);
    server.process_system(&registry, &mut world);
    assert_eq!(world.frees, vec![id]);
}

#[test]
fn coordinator_drives_a_single_storage() {
    let mut server = server();
    let mut registry = AssetTypeRegistry::new();
    assert!(registry.register(TEXT, asset_coordinator::storage::Direct));
    let mut texts = Assets::new(Text);
    let handle = server.load_untyped("motd.txt");
    let id = handle.load_handle();
    server.process_system(&registry, &mut texts);
    assert!(server.deliver(id, TEXT, b"welcome".to_vec()));
    assert_eq!(texts.get(id), None);
    let report = server.process_system(&registry, &mut texts);
    assert!(report.events[0].error.is_none());
    assert_eq!(texts.get(id), Some(&"welcome".to_string()));
    assert_eq!(texts.get_version(id), Some(1));
    drop(handle);
    server.process_system(&registry, &mut texts);
    assert_eq!(texts.get(id), None);
    assert_eq!(texts.get_version(id), None);
}

#[test]
fn freed_asset_can_be_loaded_again() {
    let mut server = server();
    let registry = registry();
    let mut world = world();
    let handle = server.load_untyped("greeting.txt");
    let id = handle.load_handle();
    server.process_system(&registry, &mut world);
    server.deliver(id, TEXT, b"first".to_vec());
    server.process_system(&registry, &mut world);
    drop(handle);
    server.process_system(&registry, &mut world);
    assert_eq!(world.frees, vec![id]);
    assert_eq!(server.load_status(id), LoadStatus::NotRequested);

    let again = server.load_untyped("greeting.txt");
    assert_eq!(again.load_handle(), id);
    assert_eq!(server.load_status(id), LoadStatus::Loading);
    server.process_system(&registry, &mut world);
    server.deliver(id, TEXT, b"second".to_vec());
    server.process_system(&registry, &mut world);
    assert_eq!(server.committed_version(id), Some(2));
    assert_eq!(world.texts.get(id), Some(&"second".to_string()));
    assert_eq!(server.ref_count(id), 1);
}

#[test]
fn handles_are_made_only_on_unbounded_queues() {
    let (bounded, _keep) = crossbeam_channel::bounded::<RefOp>(1);
    assert!(GenericHandle::try_new(bounded.clone(), LoadHandle(1)).is_none());
    assert!(Handle::<String>::try_new(bounded.clone(), LoadHandle(1)).is_none());
    assert!(bounded.is_empty());
    let (rendezvous, _keep) = crossbeam_channel::bounded::<RefOp>(0);
    assert!(GenericHandle::try_new(rendezvous, LoadHandle(1)).is_none());

    let (unbounded, received) = crossbeam_channel::unbounded::<RefOp>();
    let handle = GenericHandle::try_new(unbounded.clone(), LoadHandle(4)).unwrap();
    assert_eq!(handle.load_handle(), LoadHandle(4));
    let typed = Handle::<String>::try_new(unbounded, LoadHandle(5)).unwrap();
    assert_eq!(typed.load_handle(), LoadHandle(5));
    drop(handle);
    drop(typed);
    let seen: Vec<RefOp> = received.try_iter().collect();
    assert_eq!(
        seen,
        vec![
            RefOp::Increase(LoadHandle(4)),
            RefOp::Increase(LoadHandle(5)),
            RefOp::Decrease(LoadHandle(4)),
            RefOp::Decrease(LoadHandle(5)),
        ]
    );
}

#[test]
fn handle_writes_to_the_queue_of_its_server() {
    let mut first = server();
    let mut second = server();
    let id = LoadHandle(7);
    let handle = first.get_handle_untyped(id);
    assert!(first.ref_op_tx().same_channel(&first.ref_op_tx()));
    assert!(!first.ref_op_tx().same_channel(&second.ref_op_tx()));
    assert_eq!(first.ref_op_tx().capacity(), None);
    assert!(second.apply_pending().applied.is_empty());
    assert_eq!(first.apply_pending().applied, vec![RefOp::Increase(id)]);
    drop(handle);
    assert!(second.apply_pending().applied.is_empty());
    assert_eq!(first.apply_pending().applied, vec![RefOp::Decrease(id)]);
}

#[test]
fn queue_hands_out_senders_of_one_unbounded_channel() {
    let queue = RefOpChannel::new();
    let a = queue.sender();
    let b = queue.sender();
    assert!(a.same_channel(&b));
    assert_eq!(a.capacity(), None);
    let other = RefOpChannel::new();
    assert!(!a.same_channel(&other.sender()));
}

#[test]
fn versions_of_one_identifier_only_grow() {
    let mut server = server();
    let registry = registry();
    let mut world = world();
    let handle = server.load_untyped("greeting.txt");
    let id = handle.load_handle();

    server.process_system(&registry, &mut world);
    assert!(server.deliver(id, TEXT, vec![0xff]));
    server.process_system(&registry, &mut world);
    assert_eq!(server.committed_version(id), None);

    let retry = server.load_untyped("greeting.txt");
    server.process_system(&registry, &mut world);
    assert!(server.deliver(id, TEXT, b"two".to_vec()));
    server.process_system(&registry, &mut world);
    assert_eq!(server.committed_version(id), Some(2));
    assert_eq!(world.texts.get_version(id), Some(2));

    drop(handle);
    drop(retry);
    server.process_system(&registry, &mut world);
    assert_eq!(world.frees, vec![id]);

    let again = server.load_untyped("greeting.txt");
    server.process_system(&registry, &mut world);
    assert!(server.deliver(id, TEXT, b"three".to_vec()));
    let report = server.process_system(&registry, &mut world);
    assert_eq!(report.events[0].action, SlotAction::Decode { asset_type: TEXT, version: 3 });
    assert_eq!(server.committed_version(id), Some(3));
    assert_eq!(world.texts.get_version(id), Some(3));
    assert_eq!(again.load_handle(), id);
}
