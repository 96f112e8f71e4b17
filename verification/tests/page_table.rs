use genos::page_table::{clone_supervisor, release_clone, TableMemory, TableStore, USER};
use std::collections::{BTreeMap, BTreeSet};

/// The live tables, by address.
fn snapshot(store: &TableStore) -> BTreeMap<u64, Vec<u64>> {
    let mut tables = BTreeMap::new();
    for (page, slot) in store.pages.iter().enumerate() {
        if let Some(table) = slot {
            tables.insert(page as u64 * 0x1000, table.entries.clone());
        }
    }
    tables
}

/// The tables the store allocated and still owns.
fn owned(store: &TableStore) -> BTreeSet<u64> {
    let mut set = BTreeSet::new();
    for (page, slot) in store.pages.iter().enumerate() {
        if let Some(table) = slot {
            if table.owned {
                set.insert(page as u64 * 0x1000);
            }
        }
    }
    set
}

fn source() -> TableStore {
    let mut tables: BTreeMap<u64, Vec<u64>> = BTreeMap::new();
    for id in 1..=7 {
        tables.insert(id * 0x1000, vec![0; 512]);
    }
    tables.get_mut(&0x1000).unwrap()[0] = 0x2007;
    tables.get_mut(&0x1000).unwrap()[1] = 0x3007;
    tables.get_mut(&0x2000).unwrap()[0] = 0x4007;
    tables.get_mut(&0x3000).unwrap()[0] = 0x5007;
    tables.get_mut(&0x4000).unwrap()[0] = 0x6007;
    tables.get_mut(&0x5000).unwrap()[0] = 0x7007;
    tables.get_mut(&0x6000).unwrap()[0] = 0x1234007;
    tables.get_mut(&0x7000).unwrap()[0] = 0x5678007;
    tables.get_mut(&0x3000).unwrap()[5] = 0x80000087; // borrowed 1 GiB leaf
    let mut store = TableStore::new(0);
    for (address, entries) in tables {
        store.place(address, entries);
    }
    store
}

#[test]
fn every_allocation_failure_restores_the_exact_source_and_frame_set() {
    for budget in 0..7 {
        let mut memory = source();
        memory.budget = budget;
        let baseline = snapshot(&memory);
        assert!(clone_supervisor(&mut memory, 0x1000, 4).is_none());
        assert!(owned(&memory).is_empty());
        assert_eq!(snapshot(&memory), baseline);
    }
}

#[test]
fn success_removes_user_bits_without_owning_or_freeing_leaf_frames() {
    let mut memory = source();
    memory.budget = 7;
    let baseline = snapshot(&memory);
    let root = clone_supervisor(&mut memory, 0x1000, 4).unwrap();
    assert_eq!(owned(&memory).len(), 7);
    let tables = snapshot(&memory);
    for table in &owned(&memory) {
        assert!(tables[table].iter().all(|entry| entry & USER == 0));
    }
    release_clone(&mut memory, root, 4);
    assert_eq!(snapshot(&memory), baseline);
    assert!(owned(&memory).is_empty());
}

#[test]
fn depth_outside_one_to_four_is_refused() {
    let mut memory = source();
    memory.budget = 7;
    assert!(clone_supervisor(&mut memory, 0x1000, 0).is_none());
    assert!(clone_supervisor(&mut memory, 0x1000, 5).is_none());
    assert!(owned(&memory).is_empty());
}

#[test]
fn cloned_leaves_point_at_the_same_frames() {
    let mut memory = source();
    memory.budget = 7;
    let root = clone_supervisor(&mut memory, 0x1000, 4).unwrap();
    let level3 = memory.read(root, 1) & 0x000f_ffff_ffff_f000;
    assert_eq!(memory.read(level3, 5), 0x80000083);
    assert_eq!(memory.read(0x3000, 5), 0x80000087);
}
