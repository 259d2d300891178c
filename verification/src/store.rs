//! The two record stores. Each is an ordered stable map of the
//! `ic_stable_structures` crate from a 64-bit key to a row of plain values.
//! Everything in this module is stated, not proved: the contracts describe
//! what the crate's map does, over the mapping that a store currently holds.

use ic_stable_structures::memory_manager::MemoryId;
use ic_stable_structures::memory_manager::MemoryManager;
use ic_stable_structures::memory_manager::VirtualMemory;
use ic_stable_structures::DefaultMemoryImpl;
use ic_stable_structures::StableBTreeMap;
use vstd::prelude::*;

verus! {

/// A stored warehouse: identifier, creation time, name.
pub type WarehouseRow = (u64, u64, String);

/// A stored stock item: item identifier, warehouse identifier and quantity;
/// creation time, whether it was ever updated, and when; the item's name.
pub type StockRow = ((u64, u64, u64), (u64, bool, u64), String);

/// A warehouse row as the contracts see it.
pub type WarehouseRowView = (u64, u64, Seq<char>);

/// A stock row as the contracts see it.
pub type StockRowView = ((u64, u64, u64), (u64, bool, u64), Seq<char>);

/// The warehouse store: a `StableBTreeMap` in a virtual memory of its own.
#[verifier::external_body]
pub struct WarehouseStore {
    map: StableBTreeMap<u64, WarehouseRow, VirtualMemory<DefaultMemoryImpl>>,
}

/// The stock store: a `StableBTreeMap` in a virtual memory of its own.
#[verifier::external_body]
pub struct StockStore {
    map: StableBTreeMap<u64, StockRow, VirtualMemory<DefaultMemoryImpl>>,
}

/// What a warehouse store holds: each key with its row.
pub uninterp spec fn warehouse_rows(store: WarehouseStore) -> Map<u64, WarehouseRowView>;

/// What a stock store holds: each key with its row.
pub uninterp spec fn stock_rows(store: StockStore) -> Map<u64, StockRowView>;

pub open spec fn warehouse_row_view(row: WarehouseRow) -> WarehouseRowView {
    (row.0, row.1, row.2@)
}

pub open spec fn stock_row_view(row: StockRow) -> StockRowView {
    (row.0, row.1, row.2@)
}

/// Whether `listing` is `rows` in ascending key order: every entry is in
/// `rows`, the keys strictly ascend, and no key of `rows` is left out.
pub open spec fn warehouse_listing(
    listing: Seq<(u64, WarehouseRow)>,
    rows: Map<u64, WarehouseRowView>,
) -> bool {
    &&& forall|i: int|
        0 <= i < listing.len() ==> rows.contains_key(#[trigger] listing[i].0) && rows[listing[i].0]
            == warehouse_row_view(listing[i].1)
    &&& forall|i: int, j: int|
        0 <= i < j < listing.len() ==> #[trigger] listing[i].0 < #[trigger] listing[j].0
    &&& forall|k: u64| #[trigger]
        rows.contains_key(k) ==> exists|i: int| 0 <= i < listing.len() && #[trigger] listing[i].0 == k
}

/// Whether `listing` is `rows` in ascending key order: every entry is in
/// `rows`, the keys strictly ascend, and no key of `rows` is left out.
pub open spec fn stock_listing(listing: Seq<(u64, StockRow)>, rows: Map<u64, StockRowView>) -> bool {
    &&& forall|i: int|
        0 <= i < listing.len() ==> rows.contains_key(#[trigger] listing[i].0) && rows[listing[i].0]
            == stock_row_view(listing[i].1)
    &&& forall|i: int, j: int|
        0 <= i < j < listing.len() ==> #[trigger] listing[i].0 < #[trigger] listing[j].0
    &&& forall|k: u64| #[trigger]
        rows.contains_key(k) ==> exists|i: int| 0 <= i < listing.len() && #[trigger] listing[i].0 == k
}

/// `MemoryManager::init` on the default memory, `MemoryManager::get` for the
/// two numbered virtual memories and `StableBTreeMap::new` in each: two maps
/// that hold nothing, whatever the memories held before. `MemoryId::new`
/// refuses 255; with two different numbers neither map touches the other's
/// memory.
#[verifier::external_body]
pub(crate) fn new_stores(warehouse_memory: u8, stock_memory: u8) -> (stores: (
    WarehouseStore,
    StockStore,
))
    requires
        warehouse_memory != 255,
        stock_memory != 255,
        warehouse_memory != stock_memory,
    ensures
        warehouse_rows(stores.0) == (Map::<u64, WarehouseRowView>::empty()),
        stock_rows(stores.1) == (Map::<u64, StockRowView>::empty()),
{
    let manager = MemoryManager::init(DefaultMemoryImpl::default());
    let warehouses = StableBTreeMap::new(manager.get(MemoryId::new(warehouse_memory)));
    let stock = StableBTreeMap::new(manager.get(MemoryId::new(stock_memory)));
    (WarehouseStore { map: warehouses }, StockStore { map: stock })
}

/// `StableBTreeMap::get`: the row under `key`, or `None` where the map has
/// no such key.
#[verifier::external_body]
pub(crate) fn warehouse_row(store: &WarehouseStore, key: u64) -> (row: Option<WarehouseRow>)
    ensures
        match row {
            Some(r) => warehouse_rows(*store).contains_key(key) && warehouse_rows(*store)[key]
                == warehouse_row_view(r),
            None => !warehouse_rows(*store).contains_key(key),
        },
{
    store.map.get(&key)
}

/// `StableBTreeMap::insert`: afterwards the map holds `row` under `key` and is
/// otherwise as before. The row that `key` had before is not handed on.
#[verifier::external_body]
pub(crate) fn put_warehouse_row(store: &mut WarehouseStore, key: u64, row: WarehouseRow)
    ensures
        warehouse_rows(*final(store)) == warehouse_rows(*old(store)).insert(
            key,
            warehouse_row_view(row),
        ),
{
    store.map.insert(key, row);
}

/// `StableBTreeMap::remove`: afterwards the map has no `key` and is otherwise
/// as before; the result is the row that `key` had, or `None` where it had
/// none.
#[verifier::external_body]
pub(crate) fn take_warehouse_row(store: &mut WarehouseStore, key: u64) -> (row: Option<
    WarehouseRow,
>)
    ensures
        warehouse_rows(*final(store)) == warehouse_rows(*old(store)).remove(key),
        match row {
            Some(r) => warehouse_rows(*old(store)).contains_key(key) && warehouse_rows(
                *old(store),
            )[key] == warehouse_row_view(r),
            None => !warehouse_rows(*old(store)).contains_key(key),
        },
{
    store.map.remove(&key)
}

/// `StableBTreeMap::iter`, collected: every entry of the map, sorted by key.
#[verifier::external_body]
pub(crate) fn warehouse_entries(store: &WarehouseStore) -> (entries: Vec<(u64, WarehouseRow)>)
    ensures
        warehouse_listing(entries@, warehouse_rows(*store)),
{
    store.map.iter().collect()
}

/// `StableBTreeMap::get`: the row under `key`, or `None` where the map has
/// no such key.
#[verifier::external_body]
pub(crate) fn stock_row(store: &StockStore, key: u64) -> (row: Option<StockRow>)
    ensures
        match row {
            Some(r) => stock_rows(*store).contains_key(key) && stock_rows(*store)[key]
                == stock_row_view(r),
            None => !stock_rows(*store).contains_key(key),
        },
{
    store.map.get(&key)
}

/// `StableBTreeMap::insert`: afterwards the map holds `row` under `key` and is
/// otherwise as before. The row that `key` had before is not handed on.
#[verifier::external_body]
pub(crate) fn put_stock_row(store: &mut StockStore, key: u64, row: StockRow)
    ensures
        stock_rows(*final(store)) == stock_rows(*old(store)).insert(key, stock_row_view(row)),
{
    store.map.insert(key, row);
}

/// `StableBTreeMap::remove`: afterwards the map has no `key` and is otherwise
/// as before; the result is the row that `key` had, or `None` where it had
/// none.
#[verifier::external_body]
pub(crate) fn take_stock_row(store: &mut StockStore, key: u64) -> (row: Option<StockRow>)
    ensures
        stock_rows(*final(store)) == stock_rows(*old(store)).remove(key),
        match row {
            Some(r) => stock_rows(*old(store)).contains_key(key) && stock_rows(*old(store))[key]
                == stock_row_view(r),
            None => !stock_rows(*old(store)).contains_key(key),
        },
{
    store.map.remove(&key)
}

/// `StableBTreeMap::iter`, collected: every entry of the map, sorted by key.
#[verifier::external_body]
pub(crate) fn stock_entries(store: &StockStore) -> (entries: Vec<(u64, StockRow)>)
    ensures
        stock_listing(entries@, stock_rows(*store)),
{
    store.map.iter().collect()
}

} // verus!
