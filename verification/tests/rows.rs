use inventory_ledger::record::StockItem;
use inventory_ledger::record::Warehouse;

#[test]
fn warehouse_row_round_trip() {
    let w = Warehouse { id: 4, name: "Depot".to_string(), created_at: 99 };
    let row = w.clone().into_row();
    assert_eq!(row, (4, 99, "Depot".to_string()));
    assert_eq!(Warehouse::from_row(&row), w);
}

#[test]
fn stock_row_round_trip() {
    let fresh = StockItem {
        item_id: 3,
        warehouse_id: 4,
        item_name: "bolt".to_string(),
        quantity: 12,
        created_at: 50,
        updated_at: None,
    };
    let row = fresh.clone().into_row();
    assert_eq!(row, ((3, 4, 12), (50, false, 0), "bolt".to_string()));
    assert_eq!(StockItem::from_row(&row), fresh);
    let touched = StockItem { updated_at: Some(0), ..fresh.clone() };
    let row = touched.clone().into_row();
    assert_eq!(row, ((3, 4, 12), (50, true, 0), "bolt".to_string()));
    assert_eq!(StockItem::from_row(&row), touched);
    let later = StockItem { updated_at: Some(77), ..fresh };
    assert_eq!(StockItem::from_row(&later.clone().into_row()), later);
}
