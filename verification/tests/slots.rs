use asset_coordinator::error::RefCountError;
use asset_coordinator::ids::{AssetTypeId, HandleAllocator, LoadHandle};
use asset_coordinator::slot::{LoadSlot, LoadState, LoadStatus, SlotAction};

#[test]
fn allocator_issues_increasing_handles() {
    let mut allocator = HandleAllocator::new();
    assert!(!allocator.is_exhausted());
    let first = allocator.allocate();
    let second = allocator.allocate();
    assert_eq!(first, LoadHandle(1));
    assert_eq!(second, LoadHandle(2));
    assert_ne!(first, second);
}

#[test]
fn fresh_slot_is_unloaded() {
    let slot = LoadSlot::new(LoadHandle(4));
    assert_eq!(slot.id, LoadHandle(4));
    assert_eq!(slot.state, LoadState::Unloaded);
    assert_eq!(slot.refs, 0);
    assert_eq!(slot.attempts, 0);
    assert_eq!(slot.version, 0);
    assert!(slot.data.is_empty());
    assert!(!slot.failed);
    assert_eq!(slot.status(), LoadStatus::NotRequested);
    assert_eq!(slot.action(), SlotAction::Idle);
    assert!(slot.is_disposable());
}

#[test]
fn slot_walks_from_request_to_commit() {
    let mut slot = LoadSlot::new(LoadHandle(1));
    assert!(slot.request());
    assert_eq!(slot.state, LoadState::Requested);
    assert_eq!(slot.status(), LoadStatus::Loading);
    assert_eq!(slot.action(), SlotAction::Fetch);

    slot.advance(true);
    assert_eq!(slot.state, LoadState::BytesPending);
    assert_eq!(slot.status(), LoadStatus::Loading);
    assert_eq!(slot.action(), SlotAction::Idle);

    assert!(slot.deliver(AssetTypeId(9), vec![1, 2, 3]));
    assert_eq!(slot.state, LoadState::Decoding);
    assert_eq!(slot.data, vec![1, 2, 3]);
    assert_eq!(slot.status(), LoadStatus::Loading);
    assert_eq!(
        slot.action(),
        SlotAction::Decode { asset_type: AssetTypeId(9), version: 1 }
    );

    slot.advance(true);
    assert_eq!(slot.state, LoadState::Committed);
    assert_eq!(slot.version, 1);
    assert_eq!(slot.attempts, 1);
    assert!(slot.data.is_empty());
    assert_eq!(slot.status(), LoadStatus::Loaded);
}

#[test]
fn request_during_load_is_merged() {
    let mut slot = LoadSlot::new(LoadHandle(1));
    assert!(slot.request());
    assert!(!slot.request());
    assert_eq!(slot.state, LoadState::Requested);
    slot.advance(true);
    assert!(!slot.request());
    assert_eq!(slot.state, LoadState::BytesPending);
    slot.deliver(AssetTypeId(1), vec![7]);
    assert!(!slot.request());
    assert_eq!(slot.state, LoadState::Decoding);
    slot.advance(true);
    assert!(!slot.request());
    assert_eq!(slot.state, LoadState::Committed);
}

#[test]
fn bytes_are_taken_only_while_pending() {
    let mut slot = LoadSlot::new(LoadHandle(1));
    assert!(!slot.deliver(AssetTypeId(1), vec![1]));
    assert_eq!(slot.state, LoadState::Unloaded);
    assert!(slot.data.is_empty());
    slot.request();
    assert!(!slot.deliver(AssetTypeId(1), vec![1]));
    assert_eq!(slot.state, LoadState::Requested);
    assert!(!slot.fail_fetch());
}

#[test]
fn failed_fetch_returns_to_unloaded() {
    let mut slot = LoadSlot::new(LoadHandle(1));
    slot.request();
    slot.advance(true);
    assert!(slot.fail_fetch());
    assert_eq!(slot.state, LoadState::Unloaded);
    assert!(slot.failed);
    assert_eq!(slot.status(), LoadStatus::Error);
    assert_eq!(slot.attempts, 0);
    assert!(slot.request());
    assert!(!slot.failed);
    assert_eq!(slot.status(), LoadStatus::Loading);
}

#[test]
fn failed_decode_uses_up_its_version() {
    let mut slot = LoadSlot::new(LoadHandle(1));
    slot.request();
    slot.advance(true);
    slot.deliver(AssetTypeId(2), vec![0xff]);
    slot.advance(false);
    assert_eq!(slot.state, LoadState::Unloaded);
    assert!(slot.failed);
    assert!(slot.data.is_empty());
    assert_eq!(slot.attempts, 1);
    assert_eq!(slot.version, 0);
    assert_eq!(slot.action(), SlotAction::Idle);

    assert!(slot.request());
    slot.advance(true);
    slot.deliver(AssetTypeId(2), vec![0x41]);
    assert_eq!(
        slot.action(),
        SlotAction::Decode { asset_type: AssetTypeId(2), version: 2 }
    );
    slot.advance(true);
    assert_eq!(slot.state, LoadState::Committed);
    assert_eq!(slot.version, 2);
}

#[test]
fn release_waits_for_last_reference() {
    let mut slot = LoadSlot::new(LoadHandle(1));
    assert_eq!(slot.add_ref(), Ok(()));
    slot.request();
    slot.advance(true);
    slot.deliver(AssetTypeId(2), vec![1]);
    slot.advance(true);
    assert_eq!(slot.action(), SlotAction::Idle);
    slot.advance(true);
    assert_eq!(slot.state, LoadState::Committed);
    assert_eq!(slot.remove_ref(), Ok(()));
    assert_eq!(
        slot.action(),
        SlotAction::Free { asset_type: AssetTypeId(2), version: 1 }
    );
    assert!(!slot.is_disposable());
    slot.advance(true);
    assert_eq!(slot.state, LoadState::Freed);
    assert!(slot.is_disposable());
    assert_eq!(slot.status(), LoadStatus::NotRequested);
    assert!(slot.request());
    assert_eq!(slot.state, LoadState::Requested);
}

#[test]
fn count_does_not_go_below_zero() {
    let mut slot = LoadSlot::new(LoadHandle(6));
    assert_eq!(slot.remove_ref(), Err(RefCountError::Underflow(LoadHandle(6))));
    assert_eq!(slot.refs, 0);
}

#[test]
fn count_does_not_wrap() {
    let mut slot = LoadSlot::new(LoadHandle(6));
    slot.refs = u64::MAX;
    assert_eq!(slot.add_ref(), Err(RefCountError::Overflow(LoadHandle(6))));
    assert_eq!(slot.refs, u64::MAX);
}

#[test]
fn versions_run_out() {
    let mut slot = LoadSlot::new(LoadHandle(1));
    slot.attempts = u32::MAX;
    slot.request();
    slot.advance(true);
    slot.deliver(AssetTypeId(2), vec![1]);
    assert_eq!(slot.action(), SlotAction::Exhausted);
    slot.advance(true);
    assert_eq!(slot.state, LoadState::Unloaded);
    assert!(slot.failed);
    assert!(slot.data.is_empty());
    assert_eq!(slot.attempts, u32::MAX);
}
