use shut::store::{ChannelPolicyStore, StorageWrite, ToggleError};

fn apply(rows: &mut Vec<u64>, w: StorageWrite) {
    match w {
        StorageWrite::Insert(c) => rows.push(c),
        StorageWrite::Delete(c) => rows.retain(|r| *r != c),
    }
}

fn toggle_persisted(store: &mut ChannelPolicyStore, rows: &mut Vec<u64>, channel: u64) -> bool {
    let w = store.pending_write(channel);
    apply(rows, w);
    store.commit_toggle(channel, true).unwrap()
}

fn same_channels(store: &ChannelPolicyStore, rows: &[u64], probe: &[u64]) -> bool {
    probe
        .iter()
        .all(|c| store.is_enforced(*c) == rows.contains(c))
}

#[test]
fn toggle_scenario_with_reload() {
    let mut rows: Vec<u64> = Vec::new();
    let mut store = ChannelPolicyStore::from_rows(&rows);
    assert_eq!(toggle_persisted(&mut store, &mut rows, 42), false);
    assert!(store.is_enforced(42));
    assert_eq!(rows, vec![42]);
    assert_eq!(toggle_persisted(&mut store, &mut rows, 42), true);
    assert!(rows.is_empty());
    let reloaded = ChannelPolicyStore::from_rows(&rows);
    assert!(!reloaded.is_enforced(42));
}

#[test]
fn reload_keeps_enforced_channels() {
    let mut rows: Vec<u64> = Vec::new();
    let mut store = ChannelPolicyStore::new();
    toggle_persisted(&mut store, &mut rows, 7);
    toggle_persisted(&mut store, &mut rows, 9);
    let reloaded = ChannelPolicyStore::from_rows(&rows);
    assert!(reloaded.is_enforced(7));
    assert!(reloaded.is_enforced(9));
    assert!(!reloaded.is_enforced(8));
}

#[test]
fn toggle_twice_restores_state_and_record() {
    let mut rows: Vec<u64> = vec![5];
    let mut store = ChannelPolicyStore::from_rows(&rows);
    for c in [5u64, 6] {
        let before = store.is_enforced(c);
        toggle_persisted(&mut store, &mut rows, c);
        assert!(same_channels(&store, &rows, &[5, 6]));
        toggle_persisted(&mut store, &mut rows, c);
        assert!(same_channels(&store, &rows, &[5, 6]));
        assert_eq!(store.is_enforced(c), before);
    }
}

#[test]
fn fresh_store_enforces_nothing() {
    let store = ChannelPolicyStore::new();
    for c in [0u64, 1, 42, u64::MAX] {
        assert!(!store.is_enforced(c));
    }
}

#[test]
fn untoggled_channels_stay_free() {
    let mut store = ChannelPolicyStore::new();
    store.toggle(1);
    store.toggle(2);
    store.toggle(1);
    assert!(!store.is_enforced(3));
    assert!(!store.is_enforced(1));
    assert!(store.is_enforced(2));
}

#[test]
fn duplicate_rows_load_as_one_channel() {
    let rows: Vec<u64> = vec![3, 3, 4];
    let mut store = ChannelPolicyStore::from_rows(&rows);
    assert!(store.is_enforced(3));
    assert_eq!(store.pending_write(3), StorageWrite::Delete(3));
    assert_eq!(store.toggle(3), true);
    assert!(!store.is_enforced(3));
    assert!(store.is_enforced(4));
}

#[test]
fn pending_write_matches_membership() {
    let mut store = ChannelPolicyStore::new();
    assert_eq!(store.pending_write(10), StorageWrite::Insert(10));
    store.toggle(10);
    assert_eq!(store.pending_write(10), StorageWrite::Delete(10));
}

#[test]
fn failed_write_leaves_store_unchanged() {
    let mut store = ChannelPolicyStore::new();
    assert_eq!(store.commit_toggle(11, false), Err(ToggleError::StorageWriteFailed));
    assert!(!store.is_enforced(11));
    store.toggle(11);
    assert_eq!(store.commit_toggle(11, false), Err(ToggleError::StorageWriteFailed));
    assert!(store.is_enforced(11));
    assert_eq!(store.commit_toggle(11, true), Ok(true));
    assert!(!store.is_enforced(11));
}

#[test]
fn interleaved_toggles_keep_parity() {
    let a: Vec<u64> = vec![1, 1, 1];
    let b: Vec<u64> = vec![2, 2];
    let orders: Vec<Vec<u64>> = vec![
        vec![1, 1, 1, 2, 2],
        vec![2, 1, 2, 1, 1],
        vec![1, 2, 1, 2, 1],
        vec![2, 2, 1, 1, 1],
    ];
    for order in orders {
        let mut store = ChannelPolicyStore::new();
        for c in order {
            store.toggle(c);
        }
        assert_eq!(store.is_enforced(1), a.len() % 2 == 1);
        assert_eq!(store.is_enforced(2), b.len() % 2 == 1);
    }
}
