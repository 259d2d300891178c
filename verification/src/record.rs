//! The records of the ledger, the requests that create them, the errors that
//! an operation can answer with, and the rows under which records are stored.

use crate::store::StockRow;
use crate::store::StockRowView;
use crate::store::WarehouseRow;
use crate::store::WarehouseRowView;
use vstd::prelude::*;

verus! {

/// A warehouse. Its identity is `id`.
#[derive(Debug, Default, PartialEq, Eq)]
pub struct Warehouse {
    pub id: u64,
    pub name: String,
    pub created_at: u64,
}

/// A warehouse as the contracts see it.
pub struct WarehouseView {
    pub id: u64,
    pub name: Seq<char>,
    pub created_at: u64,
}

/// A stock item. Its identity is `item_id`; `updated_at` is absent until the
/// record is first changed.
#[derive(Debug, Default, PartialEq, Eq)]
pub struct StockItem {
    pub item_id: u64,
    pub warehouse_id: u64,
    pub item_name: String,
    pub quantity: u64,
    pub created_at: u64,
    pub updated_at: Option<u64>,
}

/// A stock item as the contracts see it.
pub struct StockItemView {
    pub item_id: u64,
    pub warehouse_id: u64,
    pub item_name: Seq<char>,
    pub quantity: u64,
    pub created_at: u64,
    pub updated_at: Option<u64>,
}

/// The request to create a warehouse.
#[derive(Debug, Default)]
pub struct WarehousePayload {
    pub name: String,
}

/// The request to add stock to a warehouse.
#[derive(Debug, Default)]
pub struct StockItemPayload {
    pub warehouse_id: u64,
    pub item_name: String,
    pub quantity: u64,
}

/// What a `NotFound` names as missing.
#[derive(Debug, Clone, Copy, PartialEq, Eq, Structural)]
pub enum Missing {
    /// No warehouse has this identifier.
    Warehouse { warehouse_id: u64 },
    /// No stock item has this identifier.
    Item { item_id: u64 },
    /// The stock item exists, but not in the warehouse named as its source.
    ItemInWarehouse { item_id: u64, warehouse_id: u64 },
}

/// Why a request is an `InvalidInput`.
#[derive(Debug, Clone, Copy, PartialEq, Eq, Structural)]
pub enum Invalid {
    /// The name of the warehouse or of the item is empty.
    EmptyName,
    /// The quantity to add is zero.
    ZeroQuantity,
}

/// The ways in which an operation fails. Each carries the identifiers and
/// quantities that a message to the caller has to show.
#[derive(Debug, Clone, Copy, PartialEq, Eq, Structural)]
pub enum Error {
    NotFound(Missing),
    InvalidInput(Invalid),
    NotEnoughStock { item_id: u64, available: u64, requested: u64 },
}

impl View for Warehouse {
    type V = WarehouseView;

    open spec fn view(&self) -> WarehouseView {
        WarehouseView { id: self.id, name: self.name@, created_at: self.created_at }
    }
}

impl View for StockItem {
    type V = StockItemView;

    open spec fn view(&self) -> StockItemView {
        StockItemView {
            item_id: self.item_id,
            warehouse_id: self.warehouse_id,
            item_name: self.item_name@,
            quantity: self.quantity,
            created_at: self.created_at,
            updated_at: self.updated_at,
        }
    }
}

impl Clone for Warehouse {
    fn clone(&self) -> (copy: Self)
        ensures
            copy@ == self@,
    {
        Warehouse { id: self.id, name: self.name.clone(), created_at: self.created_at }
    }
}

impl Clone for StockItem {
    fn clone(&self) -> (copy: Self)
        ensures
            copy@ == self@,
    {
        StockItem {
            item_id: self.item_id,
            warehouse_id: self.warehouse_id,
            item_name: self.item_name.clone(),
            quantity: self.quantity,
            created_at: self.created_at,
            updated_at: self.updated_at,
        }
    }
}

/// The row under which a warehouse is stored.
pub open spec fn warehouse_row_of(w: WarehouseView) -> WarehouseRowView {
    (w.id, w.created_at, w.name)
}

/// The warehouse that a row stands for.
pub open spec fn warehouse_of_row(row: WarehouseRowView) -> WarehouseView {
    WarehouseView { id: row.0, name: row.2, created_at: row.1 }
}

/// The row under which a stock item is stored. A row has no optional part:
/// the time of the last update is held as a flag and a time, the time being
/// 0 where the flag is down.
pub open spec fn stock_row_of(item: StockItemView) -> StockRowView {
    (
        (item.item_id, item.warehouse_id, item.quantity),
        match item.updated_at {
            Some(t) => (item.created_at, true, t),
            None => (item.created_at, false, 0u64),
        },
        item.item_name,
    )
}

/// The stock item that a row stands for.
pub open spec fn stock_item_of_row(row: StockRowView) -> StockItemView {
    let (ids, times, name) = row;
    StockItemView {
        item_id: ids.0,
        warehouse_id: ids.1,
        item_name: name,
        quantity: ids.2,
        created_at: times.0,
        updated_at: if times.1 {
            Some(times.2)
        } else {
            None
        },
    }
}

impl Warehouse {
    /// The row to store this warehouse under.
    pub fn into_row(self) -> (row: WarehouseRow)
        ensures
            crate::store::warehouse_row_view(row) == warehouse_row_of(self@),
    {
        (self.id, self.created_at, self.name)
    }

    /// The warehouse that a stored row stands for.
    pub fn from_row(row: &WarehouseRow) -> (w: Self)
        ensures
            w@ == warehouse_of_row(crate::store::warehouse_row_view(*row)),
    {
        Warehouse { id: row.0, name: row.2.clone(), created_at: row.1 }
    }
}

impl StockItem {
    /// The row to store this stock item under.
    pub fn into_row(self) -> (row: StockRow)
        ensures
            crate::store::stock_row_view(row) == stock_row_of(self@),
    {
        let times = match self.updated_at {
            Some(t) => (self.created_at, true, t),
            None => (self.created_at, false, 0u64),
        };
        ((self.item_id, self.warehouse_id, self.quantity), times, self.item_name)
    }

    /// The stock item that a stored row stands for.
    pub fn from_row(row: &StockRow) -> (item: Self)
        ensures
            item@ == stock_item_of_row(crate::store::stock_row_view(*row)),
    {
        let (item_id, warehouse_id, quantity) = row.0;
        let (created_at, updated, updated_time) = row.1;
        StockItem {
            item_id,
            warehouse_id,
            item_name: row.2.clone(),
            quantity,
            created_at,
            updated_at: if updated {
                Some(updated_time)
            } else {
                None
            },
        }
    }
}

} // verus!
