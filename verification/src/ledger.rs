//! The ledger: the warehouse registry and the stock ledger over their two
//! stores and two identifier pools.

use crate::ids::get_next_item_id;
use crate::ids::get_next_warehouse_id;
use crate::ids::IdPool;
use crate::laws::law_add_keeps_invariant;
use crate::laws::law_decrement_keeps_invariant;
use crate::laws::law_delete_keeps_invariant;
use crate::laws::law_new_warehouse_id_is_fresh;
use crate::laws::law_transfer_keeps_invariant;
use crate::model::freed_by_cascade;
use crate::model::stock_of_warehouse;
use crate::model::stock_views;
use crate::model::warehouses_with_stock;
use crate::model::LedgerView;
use crate::record::stock_item_of_row;
use crate::record::warehouse_of_row;
use crate::record::Error;
use crate::record::Invalid;
use crate::record::Missing;
use crate::record::StockItem;
use crate::record::StockItemPayload;
use crate::record::StockItemView;
use crate::record::Warehouse;
use crate::record::WarehousePayload;
use crate::record::WarehouseView;
use crate::store::new_stores;
use crate::store::put_stock_row;
use crate::store::put_warehouse_row;
use crate::store::stock_entries;
use crate::store::stock_listing;
use crate::store::stock_row;
use crate::store::stock_row_view;
use crate::store::stock_rows;
use crate::store::take_stock_row;
use crate::store::take_warehouse_row;
use crate::store::warehouse_entries;
use crate::store::warehouse_listing;
use crate::store::warehouse_row;
use crate::store::warehouse_row_view;
use crate::store::warehouse_rows;
use crate::store::StockRow;
use crate::store::StockRowView;
use crate::store::StockStore;
use crate::store::WarehouseRowView;
use crate::store::WarehouseStore;
use vstd::prelude::*;

verus! {

/// The warehouses that the rows of a store stand for.
pub open spec fn warehouse_records(rows: Map<u64, WarehouseRowView>) -> Map<u64, WarehouseView> {
    Map::new(|k: u64| rows.contains_key(k), |k: u64| warehouse_of_row(rows[k]))
}

/// The stock items that the rows of a store stand for.
pub open spec fn stock_records(rows: Map<u64, StockRowView>) -> Map<u64, StockItemView> {
    Map::new(|k: u64| rows.contains_key(k), |k: u64| stock_item_of_row(rows[k]))
}

/// The number of the virtual memory that holds the warehouses.
pub const WAREHOUSE_MEMORY: u8 = 2;

/// The number of the virtual memory that holds the stock.
pub const STOCK_MEMORY: u8 = 3;

/// A ledger of warehouses and their stock.
pub struct Ledger {
    warehouses: WarehouseStore,
    stock: StockStore,
    warehouse_ids: IdPool,
    item_ids: IdPool,
}

impl View for Ledger {
    type V = LedgerView;

    closed spec fn view(&self) -> LedgerView {
        LedgerView {
            warehouses: warehouse_records(warehouse_rows(self.warehouses)),
            stock: stock_records(stock_rows(self.stock)),
            warehouse_ids: self.warehouse_ids@,
            item_ids: self.item_ids@,
        }
    }
}

/// The warehouse with the given identifier, if there is one.
pub fn _get_warehouse(ledger: &Ledger, id: &u64) -> (found: Option<Warehouse>)
    ensures
        match found {
            Some(warehouse) => ledger@.warehouses.contains_key(*id) && ledger@.warehouses[*id]
                == warehouse@,
            None => !ledger@.warehouses.contains_key(*id),
        },
{
    match warehouse_row(&ledger.warehouses, *id) {
        Some(row) => Some(Warehouse::from_row(&row)),
        None => None,
    }
}

impl Ledger {
    /// A ledger without records: both stores empty, both pools at 1.
    pub fn new() -> (ledger: Self)
        ensures
            ledger@ == LedgerView::empty(),
            ledger@.wf(),
    {
        let (warehouses, stock) = new_stores(WAREHOUSE_MEMORY, STOCK_MEMORY);
        let ledger = Ledger {
            warehouses,
            stock,
            warehouse_ids: IdPool::new(),
            item_ids: IdPool::new(),
        };
        proof {
            assert(ledger@.warehouses =~= LedgerView::empty().warehouses);
            assert(ledger@.stock =~= LedgerView::empty().stock);
        }
        ledger
    }

    /// The warehouse with the given identifier, or `NotFound` with that
    /// identifier.
    pub fn get_warehouse(&self, id: u64) -> (found: Result<Warehouse, Error>)
        ensures
            match found {
                Ok(warehouse) => self@.warehouses.contains_key(id) && self@.warehouses[id]
                    == warehouse@,
                Err(e) => !self@.warehouses.contains_key(id) && e == Error::NotFound(
                    Missing::Warehouse { warehouse_id: id },
                ),
            },
    {
        match _get_warehouse(self, &id) {
            Some(warehouse) => Ok(warehouse),
            None => Err(Error::NotFound(Missing::Warehouse { warehouse_id: id })),
        }
    }

    /// Whether the warehouse pool has an identifier left for `add_warehouse`.
    pub fn has_warehouse_id(&self) -> (able: bool)
        ensures
            able == self@.warehouse_ids.can_allocate(),
    {
        self.warehouse_ids.can_allocate()
    }

    /// Whether the item pool has an identifier left for `transfer_item`.
    pub fn has_item_id(&self) -> (able: bool)
        ensures
            able == self@.item_ids.can_allocate(),
    {
        self.item_ids.can_allocate()
    }

    /// Creates a warehouse of the given name at time `now`. An empty name is
    /// an `InvalidInput` and changes nothing. Otherwise the warehouse gets
    /// the smallest released identifier, or the next new one, and is stored.
    pub fn add_warehouse(&mut self, payload: WarehousePayload, now: u64) -> (created: Result<
        Warehouse,
        Error,
    >)
        requires
            old(self)@.wf(),
            payload.name@.len() > 0 ==> old(self)@.warehouse_ids.can_allocate(),
        ensures
            final(self)@.wf(),
            created is Ok <==> payload.name@.len() > 0,
            match created {
                Ok(warehouse) => {
                    &&& old(self)@.warehouse_added(payload.name@, now, final(self)@, warehouse@)
                    &&& !old(self)@.warehouses.contains_key(warehouse.id)
                },
                Err(e) => {
                    &&& e == Error::InvalidInput(Invalid::EmptyName)
                    &&& final(self)@ == old(self)@
                },
            },
    {
        if payload.name.as_str().is_empty() {
            return Err(Error::InvalidInput(Invalid::EmptyName));
        }
        let id = get_next_warehouse_id(&mut self.warehouse_ids);
        let warehouse = Warehouse { id, name: payload.name, created_at: now };
        put_warehouse_row(&mut self.warehouses, id, warehouse.clone().into_row());
        proof {
            assert(final(self)@.warehouses =~= old(self)@.warehouses.insert(id, warehouse@));
            law_new_warehouse_id_is_fresh(
                old(self)@,
                payload.name@,
                now,
                final(self)@,
                warehouse@,
            );
        }
        Ok(warehouse)
    }

    /// The stock item with the given identifier, or `NotFound` with that
    /// identifier.
    pub fn check_stock(&self, item_id: u64) -> (found: Result<StockItem, Error>)
        ensures
            match found {
                Ok(item) => self@.stock.contains_key(item_id) && self@.stock[item_id] == item@,
                Err(e) => !self@.stock.contains_key(item_id) && e == Error::NotFound(
                    Missing::Item { item_id },
                ),
            },
    {
        match stock_row(&self.stock, item_id) {
            Some(row) => Ok(StockItem::from_row(&row)),
            None => Err(Error::NotFound(Missing::Item { item_id })),
        }
    }

    /// Removes a warehouse and, with it, its stock. An unknown identifier is
    /// a `NotFound` and changes nothing. Otherwise the warehouse's identifier
    /// is released, and every stock item of the warehouse is removed and its
    /// identifier released, in ascending order of item identifier.
    pub fn delete_warehouse(&mut self, warehouse_id: u64) -> (deleted: Result<Warehouse, Error>)
        requires
            old(self)@.wf(),
        ensures
            final(self)@.wf(),
            deleted is Ok <==> old(self)@.warehouses.contains_key(warehouse_id),
            match deleted {
                Ok(warehouse) => old(self)@.warehouse_deleted(
                    warehouse_id,
                    final(self)@,
                    warehouse@,
                ),
                Err(e) => {
                    &&& e == Error::NotFound(Missing::Warehouse { warehouse_id })
                    &&& final(self)@ == old(self)@
                },
            },
    {
        let ghost pre = self@;
        let ghost rows = stock_rows(self.stock);
        proof {
            self.lemma_keyed();
        }
        let warehouse = match take_warehouse_row(&mut self.warehouses, warehouse_id) {
            Some(row) => Warehouse::from_row(&row),
            None => {
                proof {
                    assert(warehouse_rows(self.warehouses) =~= warehouse_rows(
                        old(self).warehouses,
                    ));
                }
                return Err(Error::NotFound(Missing::Warehouse { warehouse_id }));
            },
        };
        self.warehouse_ids.release(warehouse_id);
        let entries = stock_entries(&self.stock);
        let items = stock_among(&entries, warehouse_id, Ghost(rows));
        let ghost ids = Seq::new(items.len() as nat, |a: int| items[a].item_id);
        proof {
            let listing = stock_views(items@);
            assert(stock_of_warehouse(listing, pre.stock, warehouse_id));
            assert forall|a: int| 0 <= a < items.len() implies pre.stock.contains_key(
                #[trigger] ids[a],
            ) && pre.stock[ids[a]].warehouse_id == warehouse_id by {
                assert(listing[a].item_id == ids[a]);
                assert(pre.stock[listing[a].item_id] == listing[a]);
            }
            assert forall|a: int, b: int| 0 <= a < b < items.len() implies #[trigger] ids[a]
                < #[trigger] ids[b] by {
                assert(listing[a].item_id == ids[a]);
                assert(listing[b].item_id == ids[b]);
            }
            assert forall|k: u64|
                #![trigger pre.stock.contains_key(k)]
                pre.stock.contains_key(k) && pre.stock[k].warehouse_id
                    == warehouse_id implies ids.contains(k) by {
                let a = choose|a: int| 0 <= a < listing.len() && #[trigger] listing[a].item_id == k;
                assert(ids[a] == k);
            }
            assert(freed_by_cascade(ids, pre.stock, warehouse_id));
            assert(self@.warehouses =~= pre.warehouses.remove(warehouse_id));
            assert(self@.item_ids.recycled =~= pre.item_ids.recycled + ids.subrange(0, 0));
        }
        let mut j: usize = 0;
        while j < items.len()
            invariant
                j <= items.len(),
                pre.wf(),
                pre == old(self)@,
                rows == stock_rows(old(self).stock),
                ids == Seq::new(items.len() as nat, |a: int| items[a].item_id),
                freed_by_cascade(ids, pre.stock, warehouse_id),
                self@.warehouses == pre.warehouses.remove(warehouse_id),
                self@.warehouse_ids == pre.warehouse_ids.released(warehouse_id),
                self@.warehouse_ids.wf(),
                self@.item_ids.wf(),
                self@.item_ids.next == pre.item_ids.next,
                self@.item_ids.recycled == pre.item_ids.recycled + ids.subrange(0, j as int),
                forall|k: u64|
                    #![trigger stock_rows(self.stock).contains_key(k)]
                    #![trigger rows.contains_key(k)]
                    stock_rows(self.stock).contains_key(k) <==> rows.contains_key(k) && !cascaded(
                        rows,
                        ids,
                        j as int,
                        warehouse_id,
                        k,
                    ),
                forall|k: u64| #[trigger]
                    stock_rows(self.stock).contains_key(k) ==> stock_rows(self.stock)[k] == rows[k],
            decreases items.len() - j,
        {
            let key = items[j].item_id;
            proof {
                assert(ids[j as int] == key);
                assert(pre.stock.contains_key(key));
                assert(rows.contains_key(key));
                let waiting = self@.item_ids.recycled;
                let first = pre.item_ids.recycled;
                if waiting.contains(key) {
                    let p = choose|p: int| 0 <= p < waiting.len() && waiting[p] == key;
                    if p < first.len() {
                        assert(first[p] == key);
                        assert(first.contains(key));
                    } else {
                        assert(ids.subrange(0, j as int)[p - first.len()] == key);
                        assert(ids[p - first.len()] < ids[j as int]);
                    }
                }
            }
            take_stock_row(&mut self.stock, key);
            self.item_ids.release(key);
            proof {
                assert(self@.item_ids.recycled =~= pre.item_ids.recycled + ids.subrange(
                    0,
                    j + 1,
                ));
                assert forall|k: u64|
                    #![trigger stock_rows(self.stock).contains_key(k)]
                    #![trigger rows.contains_key(k)]
                    stock_rows(self.stock).contains_key(k) <==> rows.contains_key(k) && !cascaded(
                        rows,
                        ids,
                        j + 1,
                        warehouse_id,
                        k,
                    ) by {
                    if rows.contains_key(k) && stock_item_of_row(rows[k]).warehouse_id
                        == warehouse_id && k < key {
                        assert(pre.stock.contains_key(k));
                        let a = choose|a: int| 0 <= a < ids.len() && ids[a] == k;
                        if a > j {
                            assert(ids[j as int] < ids[a]);
                        }
                        if j > 0 && a < j - 1 {
                            assert(ids[a] < ids[j - 1]);
                        }
                    }
                    if j > 0 {
                        assert(ids[j - 1] < ids[j as int]);
                    }
                }
            }
            j += 1;
        }
        proof {
            let post = self@;
            let first = pre.item_ids.recycled;
            assert(post.item_ids.recycled.subrange(0, first.len() as int) =~= first);
            assert(post.item_ids.recycled.subrange(
                first.len() as int,
                post.item_ids.recycled.len() as int,
            ) =~= ids);
            assert forall|k: u64|
                post.stock.contains_key(k) <==> pre.stock.contains_key(k) && pre.stock[k].warehouse_id
                    != warehouse_id by {
                if rows.contains_key(k) && stock_item_of_row(rows[k]).warehouse_id == warehouse_id {
                    assert(pre.stock.contains_key(k));
                    let a = choose|a: int| 0 <= a < ids.len() && ids[a] == k;
                    if a < ids.len() - 1 {
                        assert(ids[a] < ids[ids.len() - 1]);
                    }
                }
            }
            assert(post.stock =~= pre.stock_outside(warehouse_id));
            law_delete_keeps_invariant(pre, warehouse_id, post, warehouse@);
        }
        Ok(warehouse)
    }

    /// Every live warehouse in ascending order of identifier, each with its
    /// stock in ascending order of item identifier.
    pub fn get_all_warehouses_with_stocks(&self) -> (listing: Vec<(Warehouse, Vec<StockItem>)>)
        requires
            self@.wf(),
        ensures
            warehouses_with_stock(listing@, self@),
    {
        let warehouses = warehouse_entries(&self.warehouses);
        let stock = stock_entries(&self.stock);
        let ghost rows = warehouse_rows(self.warehouses);
        proof {
            self.lemma_keyed();
        }
        let mut listing: Vec<(Warehouse, Vec<StockItem>)> = Vec::new();
        let mut i: usize = 0;
        while i < warehouses.len()
            invariant
                i <= warehouses.len(),
                listing.len() == i,
                self@.wf(),
                rows == warehouse_rows(self.warehouses),
                warehouse_listing(warehouses@, rows),
                stock_listing(stock@, stock_rows(self.stock)),
                keyed(stock_rows(self.stock)),
                forall|a: int|
                    0 <= a < i ==> {
                        &&& (#[trigger] listing[a]).0@ == warehouse_of_row(
                            warehouse_row_view(warehouses[a].1),
                        )
                        &&& listing[a].0.id == warehouses[a].0
                        &&& stock_of_warehouse(
                            stock_views(listing[a].1@),
                            self@.stock,
                            listing[a].0.id,
                        )
                    },
            decreases warehouses.len() - i,
        {
            let warehouse = Warehouse::from_row(&warehouses[i].1);
            proof {
                assert(rows.contains_key(warehouses[i as int].0));
                assert(self@.warehouses.contains_key(warehouses[i as int].0));
            }
            let items = stock_among(&stock, warehouse.id, Ghost(stock_rows(self.stock)));
            listing.push((warehouse, items));
            i += 1;
        }
        proof {
            assert forall|a: int| 0 <= a < listing.len() implies {
                &&& self@.warehouses.contains_key(#[trigger] listing[a].0.id)
                &&& self@.warehouses[listing[a].0.id] == listing[a].0@
            } by {
                assert(rows.contains_key(warehouses[a].0));
            }
            assert forall|k: u64|
                #![trigger self@.warehouses.contains_key(k)]
                self@.warehouses.contains_key(k) implies exists|a: int|
                0 <= a < listing.len() && #[trigger] listing[a].0.id == k by {
                assert(rows.contains_key(k));
                let a = choose|a: int| 0 <= a < warehouses.len() && #[trigger] warehouses[a].0 == k;
                assert(listing[a].0.id == k);
            }
            assert forall|a: int, b: int| 0 <= a < b < listing.len() implies #[trigger] listing[a].0.id
                < #[trigger] listing[b].0.id by {
                assert(warehouses[a].0 < warehouses[b].0);
            }
        }
        listing
    }

    /// The item that stock of the given name, added to the given warehouse,
    /// merges into: of the live items of that warehouse and name the one
    /// with the smallest identifier.
    pub fn find_item(&self, warehouse_id: u64, item_name: &String) -> (found: Option<StockItem>)
        requires
            self@.wf(),
        ensures
            match found {
                Some(item) => self@.merge_target(item.item_id, warehouse_id, item_name@)
                    && self@.stock[item.item_id] == item@,
                None => !self@.holds_item(warehouse_id, item_name@),
            },
    {
        let entries = stock_entries(&self.stock);
        let ghost rows = stock_rows(self.stock);
        let mut i: usize = 0;
        while i < entries.len()
            invariant
                i <= entries.len(),
                self@.wf(),
                rows == stock_rows(self.stock),
                stock_listing(entries@, rows),
                forall|j: int|
                    0 <= j < i ==> !self@.same_item(
                        (#[trigger] entries[j]).0,
                        warehouse_id,
                        item_name@,
                    ),
            decreases entries.len() - i,
        {
            let item = StockItem::from_row(&entries[i].1);
            proof {
                assert(rows.contains_key(entries[i as int].0));
                assert(self@.stock.contains_key(entries[i as int].0));
            }
            if item.warehouse_id == warehouse_id && item.item_name == *item_name {
                proof {
                    assert forall|k: u64| k < item.item_id implies !self@.same_item(
                        k,
                        warehouse_id,
                        item_name@,
                    ) by {
                        if self@.same_item(k, warehouse_id, item_name@) {
                            assert(rows.contains_key(k));
                            let j = choose|j: int|
                                0 <= j < entries.len() && #[trigger] entries[j].0 == k;
                            if j >= i {
                                if j > i {
                                    assert(entries[i as int].0 < entries[j].0);
                                }
                            }
                        }
                    }
                }
                return Some(item);
            }
            i += 1;
        }
        proof {
            assert forall|k: u64| !self@.same_item(k, warehouse_id, item_name@) by {
                if self@.same_item(k, warehouse_id, item_name@) {
                    assert(rows.contains_key(k));
                    let j = choose|j: int| 0 <= j < entries.len() && #[trigger] entries[j].0 == k;
                }
            }
        }
        None
    }

    /// Whether the machine can hold what `add_item_to_warehouse` would give
    /// for this request.
    pub fn has_room_for(&self, payload: &StockItemPayload) -> (able: bool)
        requires
            self@.wf(),
        ensures
            able == self@.has_room_for(payload.warehouse_id, payload.item_name@, payload.quantity),
    {
        match self.find_item(payload.warehouse_id, &payload.item_name) {
            Some(item) => {
                proof {
                    assert(self@.same_item(
                        item.item_id,
                        payload.warehouse_id,
                        payload.item_name@,
                    ));
                    assert forall|k: u64|
                        self@.merge_target(
                            k,
                            payload.warehouse_id,
                            payload.item_name@,
                        ) implies k == item.item_id by {
                        if k < item.item_id {
                        } else if k > item.item_id {
                        }
                    }
                }
                item.quantity <= u64::MAX - payload.quantity
            },
            None => self.item_ids.can_allocate(),
        }
    }

    /// Adds stock to a warehouse at time `now`. A warehouse that is not live
    /// is a `NotFound`; an empty name or a quantity of zero is an
    /// `InvalidInput`; neither changes anything. Stock of a name that the
    /// warehouse holds already is merged into that item, which is stamped as
    /// updated; other stock becomes a new item under the identifier released
    /// last, or the next new one.
    pub fn add_item_to_warehouse(&mut self, payload: StockItemPayload, now: u64) -> (added: Result<
        StockItem,
        Error,
    >)
        requires
            old(self)@.wf(),
            old(self)@.add_refused(payload.warehouse_id, payload.item_name@, payload.quantity)
                is None ==> old(self)@.has_room_for(
                payload.warehouse_id,
                payload.item_name@,
                payload.quantity,
            ),
        ensures
            final(self)@.wf(),
            match added {
                Ok(item) => {
                    &&& old(self)@.add_refused(
                        payload.warehouse_id,
                        payload.item_name@,
                        payload.quantity,
                    ) is None
                    &&& old(self)@.item_added(
                        payload.warehouse_id,
                        payload.item_name@,
                        payload.quantity,
                        now,
                        final(self)@,
                        item@,
                    )
                },
                Err(e) => {
                    &&& old(self)@.add_refused(
                        payload.warehouse_id,
                        payload.item_name@,
                        payload.quantity,
                    ) == Some(e)
                    &&& final(self)@ == old(self)@
                },
            },
    {
        let warehouse_id = payload.warehouse_id;
        let quantity = payload.quantity;
        if warehouse_row(&self.warehouses, warehouse_id).is_none() {
            return Err(Error::NotFound(Missing::Warehouse { warehouse_id }));
        }
        if payload.item_name.as_str().is_empty() {
            return Err(Error::InvalidInput(Invalid::EmptyName));
        }
        if quantity == 0 {
            return Err(Error::InvalidInput(Invalid::ZeroQuantity));
        }
        let ghost pre = self@;
        let item = match self.find_item(warehouse_id, &payload.item_name) {
            Some(held) => {
                proof {
                    assert(pre.same_item(held.item_id, warehouse_id, payload.item_name@));
                }
                StockItem {
                    item_id: held.item_id,
                    warehouse_id: held.warehouse_id,
                    item_name: held.item_name,
                    quantity: held.quantity + quantity,
                    created_at: held.created_at,
                    updated_at: Some(now),
                }
            },
            None => StockItem {
                item_id: get_next_item_id(&mut self.item_ids),
                warehouse_id,
                item_name: payload.item_name,
                quantity,
                created_at: now,
                updated_at: None,
            },
        };
        put_stock_row(&mut self.stock, item.item_id, item.clone().into_row());
        proof {
            assert(self@.stock =~= pre.stock.insert(item.item_id, item@));
            law_add_keeps_invariant(
                pre,
                warehouse_id,
                payload.item_name@,
                quantity,
                now,
                self@,
                item@,
            );
        }
        Ok(item)
    }

    /// Takes `quantity` from a stock item at time `now`. An item that is not
    /// live is a `NotFound`, a quantity above what the item holds a
    /// `NotEnoughStock`; neither changes anything. Otherwise the item is
    /// stamped as updated and comes back as it is afterwards; where nothing
    /// is left of it, its record is removed and its identifier released.
    pub fn delete_item(&mut self, item_id: u64, quantity: u64, now: u64) -> (taken: Result<
        StockItem,
        Error,
    >)
        requires
            old(self)@.wf(),
        ensures
            final(self)@.wf(),
            match taken {
                Ok(item) => {
                    &&& old(self)@.decrement_refused(item_id, quantity) is None
                    &&& old(self)@.item_decremented(item_id, quantity, now, final(self)@, item@)
                },
                Err(e) => {
                    &&& old(self)@.decrement_refused(item_id, quantity) == Some(e)
                    &&& final(self)@ == old(self)@
                },
            },
    {
        let held = match stock_row(&self.stock, item_id) {
            Some(row) => StockItem::from_row(&row),
            None => {
                return Err(Error::NotFound(Missing::Item { item_id }));
            },
        };
        if quantity > held.quantity {
            return Err(
                Error::NotEnoughStock { item_id, available: held.quantity, requested: quantity },
            );
        }
        let ghost pre = self@;
        let item = StockItem {
            item_id: held.item_id,
            warehouse_id: held.warehouse_id,
            item_name: held.item_name,
            quantity: held.quantity - quantity,
            created_at: held.created_at,
            updated_at: Some(now),
        };
        if item.quantity == 0 {
            take_stock_row(&mut self.stock, item_id);
            self.item_ids.release(item_id);
            proof {
                assert(self@.stock =~= pre.stock.remove(item_id));
            }
        } else {
            put_stock_row(&mut self.stock, item_id, item.clone().into_row());
            proof {
                assert(self@.stock =~= pre.stock.insert(item_id, item@));
            }
        }
        proof {
            law_decrement_keeps_invariant(pre, item_id, quantity, now, self@, item@);
        }
        Ok(item)
    }

    /// Moves `quantity` of a stock item from warehouse `from_warehouse_id`
    /// to warehouse `to_warehouse_id` at time `now`. An item that is not
    /// live, or that does not lie in the source warehouse, is a `NotFound`; a
    /// quantity above what the item holds is a `NotEnoughStock`; none of
    /// them changes anything. Otherwise the source item is lowered and
    /// stamped as updated, and what was moved becomes a new item of the same
    /// name in the destination.
    pub fn transfer_item(
        &mut self,
        item_id: u64,
        from_warehouse_id: u64,
        to_warehouse_id: u64,
        quantity: u64,
        now: u64,
    ) -> (moved: Result<(), Error>)
        requires
            old(self)@.wf(),
            old(self)@.transfer_refused(item_id, from_warehouse_id, quantity) is None ==> old(
                self,
            )@.item_ids.can_allocate(),
        ensures
            final(self)@.wf(),
            match moved {
                Ok(_) => {
                    &&& old(self)@.transfer_refused(item_id, from_warehouse_id, quantity) is None
                    &&& old(self)@.item_transferred(
                        item_id,
                        from_warehouse_id,
                        to_warehouse_id,
                        quantity,
                        now,
                        final(self)@,
                    )
                },
                Err(e) => {
                    &&& old(self)@.transfer_refused(item_id, from_warehouse_id, quantity) == Some(e)
                    &&& final(self)@ == old(self)@
                },
            },
    {
        let held = match stock_row(&self.stock, item_id) {
            Some(row) => StockItem::from_row(&row),
            None => {
                return Err(Error::NotFound(Missing::Item { item_id }));
            },
        };
        if held.warehouse_id != from_warehouse_id {
            return Err(
                Error::NotFound(
                    Missing::ItemInWarehouse { item_id, warehouse_id: from_warehouse_id },
                ),
            );
        }
        if held.quantity < quantity {
            return Err(
                Error::NotEnoughStock { item_id, available: held.quantity, requested: quantity },
            );
        }
        let ghost pre = self@;
        let arrival = StockItem {
            item_id: get_next_item_id(&mut self.item_ids),
            warehouse_id: to_warehouse_id,
            item_name: held.item_name.clone(),
            quantity,
            created_at: now,
            updated_at: None,
        };
        let source = StockItem {
            item_id: held.item_id,
            warehouse_id: held.warehouse_id,
            item_name: held.item_name,
            quantity: held.quantity - quantity,
            created_at: held.created_at,
            updated_at: Some(now),
        };
        proof {
            assert(self@.stock =~= pre.stock);
        }
        let ghost source_view = source@;
        let ghost arrival_view = arrival@;
        let arrival_id = arrival.item_id;
        put_stock_row(&mut self.stock, item_id, source.into_row());
        put_stock_row(&mut self.stock, arrival_id, arrival.into_row());
        proof {
            assert(self@.stock =~= pre.stock.insert(item_id, source_view).insert(
                arrival_id,
                arrival_view,
            ));
            law_transfer_keeps_invariant(
                pre,
                item_id,
                from_warehouse_id,
                to_warehouse_id,
                quantity,
                now,
                self@,
            );
        }
        Ok(())
    }

    /// The stock of a warehouse: every live item whose warehouse is
    /// `warehouse_id`, in ascending order of item identifier.
    pub fn get_warehouse_stock(&self, warehouse_id: u64) -> (items: Vec<StockItem>)
        requires
            self@.wf(),
        ensures
            stock_of_warehouse(stock_views(items@), self@.stock, warehouse_id),
    {
        let entries = stock_entries(&self.stock);
        proof {
            self.lemma_keyed();
        }
        stock_among(&entries, warehouse_id, Ghost(stock_rows(self.stock)))
    }

    /// In a well-formed ledger every stock row holds the key it is stored
    /// under.
    proof fn lemma_keyed(&self)
        requires
            self@.wf(),
        ensures
            keyed(stock_rows(self.stock)),
    {
        assert forall|k: u64| #[trigger] stock_rows(self.stock).contains_key(k) implies stock_rows(
            self.stock,
        )[k].0.0 == k by {
            assert(self@.stock.contains_key(k));
        }
    }
}

/// Whether the row under `k` went with the first `done` of the identifiers
/// `ids`, which ascend: it lies in the warehouse and not above the last of
/// them.
spec fn cascaded(
    rows: Map<u64, StockRowView>,
    ids: Seq<u64>,
    done: int,
    warehouse_id: u64,
    k: u64,
) -> bool {
    stock_item_of_row(rows[k]).warehouse_id == warehouse_id && done > 0 && k <= ids[done - 1]
}

/// Whether every row holds, as its item identifier, the key it is stored
/// under.
spec fn keyed(rows: Map<u64, StockRowView>) -> bool {
    forall|k: u64| #[trigger] rows.contains_key(k) ==> rows[k].0.0 == k
}

/// The items among `entries` that lie in warehouse `warehouse_id`, in the
/// order of the entries.
fn stock_among(
    entries: &Vec<(u64, StockRow)>,
    warehouse_id: u64,
    Ghost(rows): Ghost<Map<u64, StockRowView>>,
) -> (items: Vec<StockItem>)
    requires
        stock_listing(entries@, rows),
        keyed(rows),
    ensures
        stock_of_warehouse(stock_views(items@), stock_records(rows), warehouse_id),
{
    let mut items: Vec<StockItem> = Vec::new();
    let ghost mut origin: Seq<int> = Seq::empty();
    let mut i: usize = 0;
    while i < entries.len()
        invariant
            i <= entries.len(),
            stock_listing(entries@, rows),
            keyed(rows),
            origin.len() == items.len(),
            forall|a: int|
                0 <= a < items.len() ==> {
                    &&& 0 <= #[trigger] origin[a] < i
                    &&& items[a]@ == stock_item_of_row(stock_row_view(entries[origin[a]].1))
                    &&& items[a]@.warehouse_id == warehouse_id
                },
            forall|a: int, b: int|
                0 <= a < b < items.len() ==> #[trigger] origin[a] < #[trigger] origin[b],
            forall|j: int|
                0 <= j < i && stock_row_view(#[trigger] entries[j].1).0.1 == warehouse_id
                    ==> exists|a: int| 0 <= a < items.len() && origin[a] == j,
        decreases entries.len() - i,
    {
        let item = StockItem::from_row(&entries[i].1);
        if item.warehouse_id == warehouse_id {
            proof {
                let ghost before = origin;
                origin = origin.push(i as int);
                assert forall|j: int|
                    0 <= j < i + 1 && stock_row_view(#[trigger] entries[j].1).0.1
                        == warehouse_id implies exists|a: int|
                    0 <= a < items.len() + 1 && origin[a] == j by {
                    if j < i {
                        let a = choose|a: int| 0 <= a < items.len() && before[a] == j;
                        assert(origin[a] == j);
                    } else {
                        assert(origin[items.len() as int] == j);
                    }
                }
            }
            items.push(item);
        }
        i += 1;
    }
    proof {
        let listing = stock_views(items@);
        let stock = stock_records(rows);
        assert forall|a: int| 0 <= a < listing.len() implies {
            &&& stock.contains_key(#[trigger] listing[a].item_id)
            &&& stock[listing[a].item_id] == listing[a]
            &&& listing[a].warehouse_id == warehouse_id
        } by {
            let j = origin[a];
            assert(rows.contains_key(entries[j].0));
        }
        assert forall|a: int, b: int| 0 <= a < b < listing.len() implies #[trigger] listing[a].item_id
            < #[trigger] listing[b].item_id by {
            let ja = origin[a];
            let jb = origin[b];
            assert(rows.contains_key(entries[ja].0));
            assert(rows.contains_key(entries[jb].0));
            assert(entries[ja].0 < entries[jb].0);
        }
        assert forall|k: u64|
            #![trigger stock.contains_key(k)]
            stock.contains_key(k) && stock[k].warehouse_id == warehouse_id implies exists|a: int|
            0 <= a < listing.len() && #[trigger] listing[a].item_id == k by {
            assert(rows.contains_key(k));
            let j = choose|j: int| 0 <= j < entries.len() && #[trigger] entries[j].0 == k;
            assert(stock_row_view(entries[j].1).0.1 == warehouse_id);
            let a = choose|a: int| 0 <= a < items.len() && origin[a] == j;
            assert(listing[a].item_id == k);
        }
    }
    items
}

} // verus!
