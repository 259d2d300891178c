//! The ledger as the contracts see it: two maps of records and two
//! identifier pools, and for each operation the relation between the ledger
//! before it, what was asked, the ledger after it and what was answered.

use crate::ids::PoolView;
use crate::record::Error;
use crate::record::Invalid;
use crate::record::Missing;
use crate::record::StockItem;
use crate::record::StockItemView;
use crate::record::Warehouse;
use crate::record::WarehouseView;
use vstd::prelude::*;

verus! {

/// The state of a ledger.
pub struct LedgerView {
    /// The live warehouses, by identifier.
    pub warehouses: Map<u64, WarehouseView>,
    /// The live stock items, by identifier.
    pub stock: Map<u64, StockItemView>,
    /// The pool of warehouse identifiers.
    pub warehouse_ids: PoolView,
    /// The pool of stock item identifiers.
    pub item_ids: PoolView,
}

/// The views of a sequence of stock items.
pub open spec fn stock_views(items: Seq<StockItem>) -> Seq<StockItemView> {
    items.map_values(|item: StockItem| item@)
}

/// Whether `listing` is the stock of warehouse `warehouse_id` in ascending
/// order of item identifier: it holds live items of that warehouse only,
/// each once, and leaves none out.
pub open spec fn stock_of_warehouse(
    listing: Seq<StockItemView>,
    stock: Map<u64, StockItemView>,
    warehouse_id: u64,
) -> bool {
    &&& forall|i: int|
        0 <= i < listing.len() ==> {
            &&& stock.contains_key(#[trigger] listing[i].item_id)
            &&& stock[listing[i].item_id] == listing[i]
            &&& listing[i].warehouse_id == warehouse_id
        }
    &&& forall|i: int, j: int|
        0 <= i < j < listing.len() ==> #[trigger] listing[i].item_id < #[trigger] listing[j].item_id
    &&& forall|k: u64|
        #![trigger stock.contains_key(k)]
        stock.contains_key(k) && stock[k].warehouse_id == warehouse_id ==> exists|i: int|
            0 <= i < listing.len() && #[trigger] listing[i].item_id == k
}

/// Whether `listing` is every live warehouse in ascending order of
/// identifier, each with its stock.
pub open spec fn warehouses_with_stock(
    listing: Seq<(Warehouse, Vec<StockItem>)>,
    ledger: LedgerView,
) -> bool {
    &&& forall|i: int|
        0 <= i < listing.len() ==> {
            &&& ledger.warehouses.contains_key(#[trigger] listing[i].0.id)
            &&& ledger.warehouses[listing[i].0.id] == listing[i].0@
            &&& stock_of_warehouse(stock_views(listing[i].1@), ledger.stock, listing[i].0.id)
        }
    &&& forall|i: int, j: int|
        0 <= i < j < listing.len() ==> #[trigger] listing[i].0.id < #[trigger] listing[j].0.id
    &&& forall|k: u64|
        #![trigger ledger.warehouses.contains_key(k)]
        ledger.warehouses.contains_key(k) ==> exists|i: int|
            0 <= i < listing.len() && #[trigger] listing[i].0.id == k
}

/// Whether `released` is what the removal of warehouse `warehouse_id` frees:
/// the identifiers of its stock items, in ascending order.
pub open spec fn freed_by_cascade(
    released: Seq<u64>,
    stock: Map<u64, StockItemView>,
    warehouse_id: u64,
) -> bool {
    &&& forall|i: int|
        0 <= i < released.len() ==> stock.contains_key(#[trigger] released[i])
            && stock[released[i]].warehouse_id == warehouse_id
    &&& forall|i: int, j: int|
        0 <= i < j < released.len() ==> #[trigger] released[i] < #[trigger] released[j]
    &&& forall|k: u64|
        #![trigger stock.contains_key(k)]
        stock.contains_key(k) && stock[k].warehouse_id == warehouse_id ==> released.contains(k)
}

impl LedgerView {
    /// A ledger without records, whose pools have handed out nothing.
    pub open spec fn empty() -> LedgerView {
        LedgerView {
            warehouses: Map::empty(),
            stock: Map::empty(),
            warehouse_ids: PoolView { next: 1, recycled: Seq::empty() },
            item_ids: PoolView { next: 1, recycled: Seq::empty() },
        }
    }

    /// The ledger's invariant. A record is stored under its own identifier;
    /// a live identifier lies below its pool's counter and does not wait for
    /// reuse; an identifier that waits for reuse lies below the counter.
    pub open spec fn wf(self) -> bool {
        &&& self.warehouse_ids.wf()
        &&& self.item_ids.wf()
        &&& forall|k: u64| #[trigger]
            self.warehouses.contains_key(k) ==> {
                &&& self.warehouses[k].id == k
                &&& k < self.warehouse_ids.next
                &&& !self.warehouse_ids.recycled.contains(k)
            }
        &&& forall|k: u64| #[trigger]
            self.stock.contains_key(k) ==> {
                &&& self.stock[k].item_id == k
                &&& k < self.item_ids.next
                &&& !self.item_ids.recycled.contains(k)
            }
        &&& forall|i: int|
            0 <= i < self.warehouse_ids.recycled.len() ==> #[trigger] self.warehouse_ids.recycled[i]
                < self.warehouse_ids.next
        &&& forall|i: int|
            0 <= i < self.item_ids.recycled.len() ==> #[trigger] self.item_ids.recycled[i]
                < self.item_ids.next
    }

    /// Whether every live stock item holds something.
    pub open spec fn stocked(self) -> bool {
        forall|k: u64| #[trigger] self.stock.contains_key(k) ==> self.stock[k].quantity > 0
    }

    /// Whether a warehouse named `name` becomes `warehouse` at time `now`,
    /// leading from `self` to `post`.
    pub open spec fn warehouse_added(
        self,
        name: Seq<char>,
        now: u64,
        post: LedgerView,
        warehouse: WarehouseView,
    ) -> bool {
        &&& self.warehouse_ids.allocates_smallest(warehouse.id, post.warehouse_ids)
        &&& warehouse == WarehouseView { id: warehouse.id, name: name, created_at: now }
        &&& post.warehouses == self.warehouses.insert(warehouse.id, warehouse)
        &&& post.stock == self.stock
        &&& post.item_ids == self.item_ids
    }

    /// The stock that is left when warehouse `warehouse_id` goes.
    pub open spec fn stock_outside(self, warehouse_id: u64) -> Map<u64, StockItemView> {
        Map::new(
            |k: u64| self.stock.contains_key(k) && self.stock[k].warehouse_id != warehouse_id,
            |k: u64| self.stock[k],
        )
    }

    /// Whether the removal of warehouse `warehouse_id`, which was
    /// `warehouse`, leads from `self` to `post`: the warehouse and its stock
    /// are gone, its identifier waits for reuse, and behind the item
    /// identifiers that waited before wait those of the stock that went.
    pub open spec fn warehouse_deleted(
        self,
        warehouse_id: u64,
        post: LedgerView,
        warehouse: WarehouseView,
    ) -> bool {
        &&& self.warehouses.contains_key(warehouse_id)
        &&& warehouse == self.warehouses[warehouse_id]
        &&& post.warehouses == self.warehouses.remove(warehouse_id)
        &&& post.warehouse_ids == self.warehouse_ids.released(warehouse_id)
        &&& post.stock == self.stock_outside(warehouse_id)
        &&& post.item_ids.next == self.item_ids.next
        &&& post.item_ids.recycled.len() >= self.item_ids.recycled.len()
        &&& post.item_ids.recycled.subrange(0, self.item_ids.recycled.len() as int)
            == self.item_ids.recycled
        &&& freed_by_cascade(
            post.item_ids.recycled.subrange(
                self.item_ids.recycled.len() as int,
                post.item_ids.recycled.len() as int,
            ),
            self.stock,
            warehouse_id,
        )
    }

    /// Whether the live item `k` lies in warehouse `warehouse_id` under the
    /// name `name`.
    pub open spec fn same_item(self, k: u64, warehouse_id: u64, name: Seq<char>) -> bool {
        &&& self.stock.contains_key(k)
        &&& self.stock[k].warehouse_id == warehouse_id
        &&& self.stock[k].item_name == name
    }

    /// Whether the warehouse holds an item of that name.
    pub open spec fn holds_item(self, warehouse_id: u64, name: Seq<char>) -> bool {
        exists|k: u64| self.same_item(k, warehouse_id, name)
    }

    /// Whether `k` is the item that added stock of that name merges into:
    /// the one with the smallest identifier.
    pub open spec fn merge_target(self, k: u64, warehouse_id: u64, name: Seq<char>) -> bool {
        &&& self.same_item(k, warehouse_id, name)
        &&& forall|j: u64| j < k ==> !self.same_item(j, warehouse_id, name)
    }

    /// Whether the machine can hold what adding `quantity` of `name` to the
    /// warehouse gives: the merged quantity where the stock merges, one more
    /// identifier where it does not.
    pub open spec fn has_room_for(self, warehouse_id: u64, name: Seq<char>, quantity: u64) -> bool {
        if self.holds_item(warehouse_id, name) {
            forall|k: u64|
                self.merge_target(k, warehouse_id, name) ==> self.stock[k].quantity + quantity
                    <= u64::MAX
        } else {
            self.item_ids.can_allocate()
        }
    }

    /// Why adding `quantity` of `name` to warehouse `warehouse_id` is
    /// refused, if it is: the warehouse is not live, or else the name is
    /// empty, or else the quantity is zero.
    pub open spec fn add_refused(self, warehouse_id: u64, name: Seq<char>, quantity: u64) -> Option<
        Error,
    > {
        if !self.warehouses.contains_key(warehouse_id) {
            Some(Error::NotFound(Missing::Warehouse { warehouse_id }))
        } else if name.len() == 0 {
            Some(Error::InvalidInput(Invalid::EmptyName))
        } else if quantity == 0 {
            Some(Error::InvalidInput(Invalid::ZeroQuantity))
        } else {
            None
        }
    }

    /// Why taking `quantity` from item `item_id` is refused, if it is: the
    /// item is not live, or else it holds less than is asked for.
    pub open spec fn decrement_refused(self, item_id: u64, quantity: u64) -> Option<Error> {
        if !self.stock.contains_key(item_id) {
            Some(Error::NotFound(Missing::Item { item_id }))
        } else if self.stock[item_id].quantity < quantity {
            Some(
                Error::NotEnoughStock {
                    item_id,
                    available: self.stock[item_id].quantity,
                    requested: quantity,
                },
            )
        } else {
            None
        }
    }

    /// Why moving `quantity` of item `item_id` out of warehouse `from` is
    /// refused, if it is: the item is not live, or else it does not lie in
    /// `from`, or else it holds less than is asked for.
    pub open spec fn transfer_refused(self, item_id: u64, from: u64, quantity: u64) -> Option<
        Error,
    > {
        if !self.stock.contains_key(item_id) {
            Some(Error::NotFound(Missing::Item { item_id }))
        } else if self.stock[item_id].warehouse_id != from {
            Some(Error::NotFound(Missing::ItemInWarehouse { item_id, warehouse_id: from }))
        } else if self.stock[item_id].quantity < quantity {
            Some(
                Error::NotEnoughStock {
                    item_id,
                    available: self.stock[item_id].quantity,
                    requested: quantity,
                },
            )
        } else {
            None
        }
    }

    /// Whether adding `quantity` of `name` to warehouse `warehouse_id` at
    /// time `now` leads from `self` to `post` and gives `item`. Stock of a
    /// name that the warehouse holds merges into the held item; other stock
    /// becomes an item of its own.
    pub open spec fn item_added(
        self,
        warehouse_id: u64,
        name: Seq<char>,
        quantity: u64,
        now: u64,
        post: LedgerView,
        item: StockItemView,
    ) -> bool {
        &&& post.warehouses == self.warehouses
        &&& post.warehouse_ids == self.warehouse_ids
        &&& post.stock == self.stock.insert(item.item_id, item)
        &&& if self.holds_item(warehouse_id, name) {
            &&& self.merge_target(item.item_id, warehouse_id, name)
            &&& item == StockItemView {
                quantity: (self.stock[item.item_id].quantity + quantity) as u64,
                updated_at: Some(now),
                ..self.stock[item.item_id]
            }
            &&& post.item_ids == self.item_ids
        } else {
            &&& self.item_ids.allocates_latest(item.item_id, post.item_ids)
            &&& item == StockItemView {
                item_id: item.item_id,
                warehouse_id: warehouse_id,
                item_name: name,
                quantity: quantity,
                created_at: now,
                updated_at: None,
            }
        }
    }

    /// Whether taking `quantity` from item `item_id` at time `now` leads from
    /// `self` to `post` and gives `item`, the item as it is afterwards. An
    /// item that is left with nothing goes, and its identifier waits for
    /// reuse.
    pub open spec fn item_decremented(
        self,
        item_id: u64,
        quantity: u64,
        now: u64,
        post: LedgerView,
        item: StockItemView,
    ) -> bool {
        &&& self.stock.contains_key(item_id)
        &&& quantity <= self.stock[item_id].quantity
        &&& item == StockItemView {
            quantity: (self.stock[item_id].quantity - quantity) as u64,
            updated_at: Some(now),
            ..self.stock[item_id]
        }
        &&& post.warehouses == self.warehouses
        &&& post.warehouse_ids == self.warehouse_ids
        &&& if item.quantity == 0 {
            &&& post.stock == self.stock.remove(item_id)
            &&& post.item_ids == self.item_ids.released(item_id)
        } else {
            &&& post.stock == self.stock.insert(item_id, item)
            &&& post.item_ids == self.item_ids
        }
    }

    /// Whether moving `quantity` of item `item_id` from warehouse `from` to
    /// warehouse `to` at time `now` leads from `self` to `post`. The source
    /// keeps its record, also with nothing left; what is moved becomes a new
    /// item of the same name in `to`, whether or not `to` is a live warehouse
    /// or holds that name already.
    pub open spec fn item_transferred(
        self,
        item_id: u64,
        from: u64,
        to: u64,
        quantity: u64,
        now: u64,
        post: LedgerView,
    ) -> bool {
        let source = self.stock[item_id];
        let moved = self.item_ids.latest();
        &&& self.stock.contains_key(item_id)
        &&& source.warehouse_id == from
        &&& quantity <= source.quantity
        &&& post.warehouses == self.warehouses
        &&& post.warehouse_ids == self.warehouse_ids
        &&& self.item_ids.allocates_latest(moved, post.item_ids)
        &&& post.stock == self.stock.insert(
            item_id,
            StockItemView {
                quantity: (source.quantity - quantity) as u64,
                updated_at: Some(now),
                ..source
            },
        ).insert(
            moved,
            StockItemView {
                item_id: moved,
                warehouse_id: to,
                item_name: source.item_name,
                quantity: quantity,
                created_at: now,
                updated_at: None,
            },
        )
    }
}

} // verus!
