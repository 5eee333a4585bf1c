use asset_coordinator::channel::RefOp;
use asset_coordinator::engine::LoadEngine;
use asset_coordinator::error::{AssetLoadError, AssetServerError, RefCountError};
use asset_coordinator::ids::{AssetTypeId, LoadHandle};
use asset_coordinator::registry::{AssetTypeRegistry, StorageVisitor};
use asset_coordinator::slot::{LoadStatus, SlotAction};

#[derive(Debug, PartialEq)]
enum Call {
    Update(LoadHandle, Vec<u8>, u32),
    Commit(LoadHandle, u32),
    Free(LoadHandle, u32),
}

struct Recorder {
    calls: Vec<Call>,
}

/// Records every operation; refuses bytes that start with zero.
struct Recording;

impl StorageVisitor<Recorder> for Recording {
    fn update_asset(
        &self,
        resources: &mut Recorder,
        load_handle: LoadHandle,
        data: Vec<u8>,
        version: u32,
    ) -> Result<(), AssetLoadError> {
        let refused = data.first() == Some(&0);
        resources.calls.push(Call::Update(load_handle, data, version));
        if refused {
            Err(AssetLoadError::DecodeFailed)
        } else {
            Ok(())
        }
    }

    fn commit_asset_version(
        &self,
        resources: &mut Recorder,
        load_handle: LoadHandle,
        version: u32,
    ) {
        resources.calls.push(Call::Commit(load_handle, version));
    }

    fn free(&self, resources: &mut Recorder, load_handle: LoadHandle, version: u32) {
        resources.calls.push(Call::Free(load_handle, version));
    }
}

const KIND: AssetTypeId = AssetTypeId(11);

fn registry() -> AssetTypeRegistry<Recording> {
    let mut registry = AssetTypeRegistry::new();
    assert!(registry.register(KIND, Recording));
    registry
}

#[test]
fn counts_follow_the_operations() {
    let mut engine = LoadEngine::new();
    let a = LoadHandle(1);
    let b = LoadHandle(2);
    let ops = vec![
        RefOp::Increase(a),
        RefOp::Increase(b),
        RefOp::Increase(a),
        RefOp::Decrease(b),
        RefOp::Increase(a),
        RefOp::Decrease(a),
    ];
    assert_eq!(engine.apply_ref_ops(&ops), Ok(()));
    assert_eq!(engine.ref_count(a), 2);
    assert_eq!(engine.ref_count(b), 0);
    assert_eq!(engine.ref_count(LoadHandle(3)), 0);
    assert!(engine.is_tracked(a));
    assert!(engine.is_tracked(b));
    assert!(!engine.is_tracked(LoadHandle(3)));
}

#[test]
fn release_without_reference_stops_the_pump() {
    let mut engine = LoadEngine::new();
    let a = LoadHandle(1);
    let ops = vec![
        RefOp::Increase(a),
        RefOp::Decrease(a),
        RefOp::Decrease(a),
        RefOp::Increase(a),
    ];
    assert_eq!(engine.apply_ref_ops(&ops), Err(RefCountError::Underflow(a)));
    assert_eq!(engine.ref_count(a), 0);
    assert_eq!(
        engine.apply_ref_op(RefOp::Decrease(LoadHandle(8))),
        Err(RefCountError::Underflow(LoadHandle(8)))
    );
    assert!(!engine.is_tracked(LoadHandle(8)));
}

#[test]
fn empty_run_changes_nothing() {
    let mut engine = LoadEngine::new();
    assert_eq!(engine.apply_ref_ops(&Vec::new()), Ok(()));
    assert!(!engine.is_tracked(LoadHandle(1)));
}

#[test]
fn cycle_hands_out_requested_loads() {
    let registry = registry();
    let mut recorder = Recorder { calls: Vec::new() };
    let mut engine = LoadEngine::new();
    let id = LoadHandle(1);
    assert_eq!(engine.status(id), LoadStatus::NotRequested);
    assert!(engine.request(id));
    assert!(!engine.request(id));
    assert_eq!(engine.status(id), LoadStatus::Loading);

    let events = engine.process(&registry, &mut recorder);
    assert_eq!(events.len(), 1);
    assert_eq!(events[0].load_handle, id);
    assert_eq!(events[0].action, SlotAction::Fetch);
    assert!(events[0].error.is_none());
    assert!(recorder.calls.is_empty());

    let events = engine.process(&registry, &mut recorder);
    assert!(events.is_empty());
    assert_eq!(engine.status(id), LoadStatus::Loading);
}

#[test]
fn cycle_decodes_and_commits_at_once() {
    let registry = registry();
    let mut recorder = Recorder { calls: Vec::new() };
    let mut engine = LoadEngine::new();
    let id = LoadHandle(1);
    engine.apply_ref_op(RefOp::Increase(id)).unwrap();
    engine.request(id);
    engine.process(&registry, &mut recorder);
    assert!(engine.deliver(id, KIND, vec![5, 6]));
    assert_eq!(engine.committed_version(id), None);

    let events = engine.process(&registry, &mut recorder);
    assert_eq!(events.len(), 1);
    assert_eq!(events[0].action, SlotAction::Decode { asset_type: KIND, version: 1 });
    assert!(events[0].error.is_none());
    assert_eq!(
        recorder.calls,
        vec![Call::Update(id, vec![5, 6], 1), Call::Commit(id, 1)]
    );
    assert_eq!(engine.status(id), LoadStatus::Loaded);
    assert_eq!(engine.committed_version(id), Some(1));

    let events = engine.process(&registry, &mut recorder);
    assert!(events.is_empty());
    assert_eq!(recorder.calls.len(), 2);
}

#[test]
fn cycle_frees_only_without_references() {
    let registry = registry();
    let mut recorder = Recorder { calls: Vec::new() };
    let mut engine = LoadEngine::new();
    let id = LoadHandle(1);
    engine.apply_ref_ops(&vec![RefOp::Increase(id), RefOp::Increase(id)]).unwrap();
    engine.request(id);
    engine.process(&registry, &mut recorder);
    engine.deliver(id, KIND, vec![5]);
    engine.process(&registry, &mut recorder);
    recorder.calls.clear();

    engine.apply_ref_op(RefOp::Decrease(id)).unwrap();
    assert!(engine.process(&registry, &mut recorder).is_empty());
    assert!(recorder.calls.is_empty());

    engine.apply_ref_op(RefOp::Decrease(id)).unwrap();
    let events = engine.process(&registry, &mut recorder);
    assert_eq!(events.len(), 1);
    assert_eq!(events[0].action, SlotAction::Free { asset_type: KIND, version: 1 });
    assert!(events[0].error.is_none());
    assert_eq!(recorder.calls, vec![Call::Free(id, 1)]);
    assert_eq!(engine.status(id), LoadStatus::NotRequested);

    assert!(engine.process(&registry, &mut recorder).is_empty());
    assert_eq!(recorder.calls.len(), 1);
    assert_eq!(engine.sweep(), vec![id]);
    assert!(!engine.is_tracked(id));
}

#[test]
fn load_without_references_is_freed_after_commit() {
    let registry = registry();
    let mut recorder = Recorder { calls: Vec::new() };
    let mut engine = LoadEngine::new();
    let id = LoadHandle(1);
    engine.request(id);
    engine.process(&registry, &mut recorder);
    engine.deliver(id, KIND, vec![1]);
    engine.process(&registry, &mut recorder);
    assert_eq!(engine.status(id), LoadStatus::Loaded);
    engine.process(&registry, &mut recorder);
    assert_eq!(
        recorder.calls,
        vec![Call::Update(id, vec![1], 1), Call::Commit(id, 1), Call::Free(id, 1)]
    );
}

#[test]
fn unregistered_type_reaches_no_storage() {
    let registry = registry();
    let mut recorder = Recorder { calls: Vec::new() };
    let mut engine = LoadEngine::new();
    let id = LoadHandle(1);
    let unknown = AssetTypeId(99);
    engine.apply_ref_op(RefOp::Increase(id)).unwrap();
    engine.request(id);
    engine.process(&registry, &mut recorder);
    engine.deliver(id, unknown, vec![1]);
    let events = engine.process(&registry, &mut recorder);
    assert_eq!(events.len(), 1);
    assert_eq!(events[0].load_handle, id);
    assert!(matches!(
        events[0].error,
        Some(AssetServerError::MissingAssetRegistration(t)) if t == unknown
    ));
    assert!(recorder.calls.is_empty());
    assert_eq!(engine.status(id), LoadStatus::Error);
    assert_eq!(engine.committed_version(id), None);
}

#[test]
fn failed_decode_is_reported_and_not_committed() {
    let registry = registry();
    let mut recorder = Recorder { calls: Vec::new() };
    let mut engine = LoadEngine::new();
    let id = LoadHandle(1);
    engine.apply_ref_op(RefOp::Increase(id)).unwrap();
    engine.request(id);
    engine.process(&registry, &mut recorder);
    engine.deliver(id, KIND, vec![0, 1]);
    let events = engine.process(&registry, &mut recorder);
    assert!(matches!(
        events[0].error,
        Some(AssetServerError::AssetLoadError(AssetLoadError::DecodeFailed))
    ));
    assert_eq!(recorder.calls, vec![Call::Update(id, vec![0, 1], 1)]);
    assert_eq!(engine.status(id), LoadStatus::Error);
    assert!(engine.process(&registry, &mut recorder).is_empty());
    assert_eq!(recorder.calls.len(), 1);
}

#[test]
fn failed_fetch_fails_one_request() {
    let registry = registry();
    let mut recorder = Recorder { calls: Vec::new() };
    let mut engine = LoadEngine::new();
    let a = LoadHandle(1);
    let b = LoadHandle(2);
    engine.apply_ref_ops(&vec![RefOp::Increase(a), RefOp::Increase(b)]).unwrap();
    engine.request(a);
    engine.request(b);
    let events = engine.process(&registry, &mut recorder);
    let mut fetched: Vec<u64> = events.iter().map(|event| event.load_handle.0).collect();
    fetched.sort();
    assert_eq!(fetched, vec![1, 2]);
    assert!(engine.fail_fetch(a));
    assert!(!engine.fail_fetch(a));
    assert!(!engine.fail_fetch(LoadHandle(3)));
    assert!(!engine.deliver(a, KIND, vec![1]));
    assert!(engine.deliver(b, KIND, vec![2]));
    engine.process(&registry, &mut recorder);
    assert_eq!(engine.status(a), LoadStatus::Error);
    assert_eq!(engine.status(b), LoadStatus::Loaded);
}

#[test]
fn sweep_keeps_what_is_in_use() {
    let registry = registry();
    let mut recorder = Recorder { calls: Vec::new() };
    let mut engine = LoadEngine::new();
    let idle = LoadHandle(1);
    let held = LoadHandle(2);
    let loading = LoadHandle(3);
    engine.apply_ref_ops(&vec![
        RefOp::Increase(idle),
        RefOp::Decrease(idle),
        RefOp::Increase(held),
    ])
    .unwrap();
    engine.request(loading);
    engine.process(&registry, &mut recorder);
    assert_eq!(engine.sweep(), vec![idle]);
    assert!(!engine.is_tracked(idle));
    assert!(engine.is_tracked(held));
    assert!(engine.is_tracked(loading));
    assert_eq!(engine.ref_count(held), 1);
    assert_eq!(engine.status(loading), LoadStatus::Loading);
    assert!(engine.sweep().is_empty());
}
