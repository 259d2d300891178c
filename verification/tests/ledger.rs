use inventory_ledger::ledger::Ledger;
use inventory_ledger::ledger::_get_warehouse;
use inventory_ledger::record::Error;
use inventory_ledger::record::Invalid;
use inventory_ledger::record::Missing;
use inventory_ledger::record::StockItem;
use inventory_ledger::record::StockItemPayload;
use inventory_ledger::record::Warehouse;
use inventory_ledger::record::WarehousePayload;

fn warehouse(ledger: &mut Ledger, name: &str, now: u64) -> Warehouse {
    ledger.add_warehouse(WarehousePayload { name: name.to_string() }, now).unwrap()
}

fn stock(ledger: &mut Ledger, warehouse_id: u64, name: &str, quantity: u64, now: u64) -> StockItem {
    let payload = StockItemPayload { warehouse_id, item_name: name.to_string(), quantity };
    assert!(ledger.has_room_for(&payload));
    ledger.add_item_to_warehouse(payload, now).unwrap()
}

#[test]
fn new_ledger_is_empty() {
    let ledger = Ledger::new();
    assert!(ledger.get_all_warehouses_with_stocks().is_empty());
    assert!(ledger.get_warehouse_stock(1).is_empty());
    assert_eq!(_get_warehouse(&ledger, &1), None);
    assert_eq!(ledger.get_warehouse(1), Err(Error::NotFound(Missing::Warehouse { warehouse_id: 1 })));
    assert_eq!(ledger.check_stock(1), Err(Error::NotFound(Missing::Item { item_id: 1 })));
    assert!(ledger.has_warehouse_id());
    assert!(ledger.has_item_id());
}

#[test]
fn add_warehouse_stores_the_record() {
    let mut ledger = Ledger::new();
    let w = warehouse(&mut ledger, "North", 100);
    assert_eq!(w, Warehouse { id: 1, name: "North".to_string(), created_at: 100 });
    assert_eq!(ledger.get_warehouse(1), Ok(w.clone()));
    assert_eq!(_get_warehouse(&ledger, &1), Some(w));
    assert_eq!(_get_warehouse(&ledger, &2), None);
}

#[test]
fn add_warehouse_rejects_empty_name() {
    let mut ledger = Ledger::new();
    let refused = ledger.add_warehouse(WarehousePayload { name: String::new() }, 5);
    assert_eq!(refused, Err(Error::InvalidInput(Invalid::EmptyName)));
    assert!(ledger.get_all_warehouses_with_stocks().is_empty());
    assert_eq!(warehouse(&mut ledger, "A", 6).id, 1);
}

#[test]
fn warehouse_ids_are_unique_among_live_warehouses() {
    let mut ledger = Ledger::new();
    let mut seen: Vec<u64> = Vec::new();
    for round in 0..6u64 {
        let w = warehouse(&mut ledger, "W", round);
        assert!(!seen.contains(&w.id));
        seen.push(w.id);
    }
    ledger.delete_warehouse(2).unwrap();
    ledger.delete_warehouse(5).unwrap();
    seen.retain(|id| *id != 2 && *id != 5);
    for round in 0..3u64 {
        let w = warehouse(&mut ledger, "V", round);
        assert!(!seen.contains(&w.id));
        seen.push(w.id);
    }
    seen.sort();
    assert_eq!(seen, vec![1, 2, 3, 4, 5, 6, 7]);
}

#[test]
fn delete_warehouse_cascades_to_its_stock() {
    let mut ledger = Ledger::new();
    let a = warehouse(&mut ledger, "A", 1);
    let b = warehouse(&mut ledger, "B", 2);
    stock(&mut ledger, a.id, "bolt", 5, 3);
    let kept = stock(&mut ledger, b.id, "bolt", 7, 4);
    stock(&mut ledger, a.id, "nut", 2, 5);
    let deleted = ledger.delete_warehouse(a.id);
    assert_eq!(deleted, Ok(a.clone()));
    assert_eq!(ledger.get_warehouse(a.id), Err(Error::NotFound(Missing::Warehouse { warehouse_id: 1 })));
    assert!(ledger.get_warehouse_stock(a.id).is_empty());
    assert_eq!(ledger.check_stock(1), Err(Error::NotFound(Missing::Item { item_id: 1 })));
    assert_eq!(ledger.check_stock(3), Err(Error::NotFound(Missing::Item { item_id: 3 })));
    assert_eq!(ledger.get_warehouse_stock(b.id), vec![kept.clone()]);
    assert_eq!(ledger.check_stock(2), Ok(kept));
    assert_eq!(ledger.get_warehouse(b.id), Ok(b));
}

#[test]
fn delete_warehouse_releases_the_item_ids() {
    let mut ledger = Ledger::new();
    let a = warehouse(&mut ledger, "A", 1);
    let b = warehouse(&mut ledger, "B", 2);
    stock(&mut ledger, a.id, "bolt", 5, 3);
    stock(&mut ledger, b.id, "bolt", 7, 4);
    stock(&mut ledger, a.id, "nut", 2, 5);
    ledger.delete_warehouse(a.id).unwrap();
    assert_eq!(stock(&mut ledger, b.id, "washer", 1, 6).item_id, 3);
    assert_eq!(stock(&mut ledger, b.id, "screw", 1, 7).item_id, 1);
    assert_eq!(stock(&mut ledger, b.id, "rivet", 1, 8).item_id, 4);
}

#[test]
fn delete_unknown_warehouse_changes_nothing() {
    let mut ledger = Ledger::new();
    let a = warehouse(&mut ledger, "A", 1);
    let item = stock(&mut ledger, a.id, "bolt", 5, 3);
    assert_eq!(
        ledger.delete_warehouse(9),
        Err(Error::NotFound(Missing::Warehouse { warehouse_id: 9 }))
    );
    assert_eq!(ledger.get_warehouse(a.id), Ok(a.clone()));
    assert_eq!(ledger.get_warehouse_stock(a.id), vec![item]);
    assert_eq!(warehouse(&mut ledger, "B", 4).id, 2);
}

#[test]
fn deleted_warehouse_id_is_reused() {
    let mut ledger = Ledger::new();
    for round in 0..4u64 {
        warehouse(&mut ledger, "W", round);
    }
    ledger.delete_warehouse(3).unwrap();
    assert_eq!(warehouse(&mut ledger, "again", 10).id, 3);
    assert_eq!(warehouse(&mut ledger, "next", 11).id, 5);
    ledger.delete_warehouse(4).unwrap();
    ledger.delete_warehouse(2).unwrap();
    assert_eq!(warehouse(&mut ledger, "low", 12).id, 2);
    assert_eq!(warehouse(&mut ledger, "high", 13).id, 4);
    assert_eq!(warehouse(&mut ledger, "new", 14).id, 6);
}

#[test]
fn add_item_merges_by_name() {
    let mut ledger = Ledger::new();
    let w1 = warehouse(&mut ledger, "W1", 1);
    let first = stock(&mut ledger, w1.id, "bolt", 5, 10);
    assert_eq!(
        first,
        StockItem {
            item_id: 1,
            warehouse_id: 1,
            item_name: "bolt".to_string(),
            quantity: 5,
            created_at: 10,
            updated_at: None,
        }
    );
    let merged = stock(&mut ledger, w1.id, "bolt", 3, 20);
    assert_eq!(
        merged,
        StockItem {
            item_id: 1,
            warehouse_id: 1,
            item_name: "bolt".to_string(),
            quantity: 8,
            created_at: 10,
            updated_at: Some(20),
        }
    );
    assert_eq!(ledger.get_warehouse_stock(w1.id), vec![merged.clone()]);
    assert_eq!(ledger.check_stock(1), Ok(merged));
    assert_eq!(ledger.check_stock(2), Err(Error::NotFound(Missing::Item { item_id: 2 })));
}

#[test]
fn add_item_does_not_merge_across_warehouses_or_names() {
    let mut ledger = Ledger::new();
    let w1 = warehouse(&mut ledger, "W1", 1);
    let w2 = warehouse(&mut ledger, "W2", 2);
    assert_eq!(stock(&mut ledger, w1.id, "bolt", 5, 10).item_id, 1);
    assert_eq!(stock(&mut ledger, w2.id, "bolt", 3, 11).item_id, 2);
    assert_eq!(stock(&mut ledger, w1.id, "nut", 4, 12).item_id, 3);
    assert_eq!(stock(&mut ledger, w1.id, "Bolt", 1, 13).item_id, 4);
    assert_eq!(ledger.check_stock(1).unwrap().quantity, 5);
    assert_eq!(ledger.check_stock(2).unwrap().quantity, 3);
    assert_eq!(ledger.get_warehouse_stock(w1.id).len(), 3);
    assert_eq!(ledger.get_warehouse_stock(w2.id).len(), 1);
}

#[test]
fn add_item_rejections() {
    let mut ledger = Ledger::new();
    let w = warehouse(&mut ledger, "W", 1);
    let to_nowhere = StockItemPayload { warehouse_id: 7, item_name: "bolt".to_string(), quantity: 1 };
    assert_eq!(
        ledger.add_item_to_warehouse(to_nowhere, 2),
        Err(Error::NotFound(Missing::Warehouse { warehouse_id: 7 }))
    );
    let unnamed = StockItemPayload { warehouse_id: w.id, item_name: String::new(), quantity: 1 };
    assert_eq!(
        ledger.add_item_to_warehouse(unnamed, 2),
        Err(Error::InvalidInput(Invalid::EmptyName))
    );
    let nothing = StockItemPayload { warehouse_id: w.id, item_name: "bolt".to_string(), quantity: 0 };
    assert_eq!(
        ledger.add_item_to_warehouse(nothing, 2),
        Err(Error::InvalidInput(Invalid::ZeroQuantity))
    );
    let all_wrong = StockItemPayload { warehouse_id: 7, item_name: String::new(), quantity: 0 };
    assert_eq!(
        ledger.add_item_to_warehouse(all_wrong, 2),
        Err(Error::NotFound(Missing::Warehouse { warehouse_id: 7 }))
    );
    assert!(ledger.get_warehouse_stock(w.id).is_empty());
    assert_eq!(stock(&mut ledger, w.id, "bolt", 1, 3).item_id, 1);
}

#[test]
fn has_room_for_sees_an_overflowing_merge() {
    let mut ledger = Ledger::new();
    let w = warehouse(&mut ledger, "W", 1);
    stock(&mut ledger, w.id, "bolt", u64::MAX - 2, 2);
    let fits = StockItemPayload { warehouse_id: w.id, item_name: "bolt".to_string(), quantity: 2 };
    let too_much = StockItemPayload { warehouse_id: w.id, item_name: "bolt".to_string(), quantity: 3 };
    let other = StockItemPayload { warehouse_id: w.id, item_name: "nut".to_string(), quantity: u64::MAX };
    assert!(ledger.has_room_for(&fits));
    assert!(!ledger.has_room_for(&too_much));
    assert!(ledger.has_room_for(&other));
    assert_eq!(ledger.add_item_to_warehouse(fits, 3).unwrap().quantity, u64::MAX);
}

#[test]
fn find_item_gives_the_merge_target() {
    let mut ledger = Ledger::new();
    let a = warehouse(&mut ledger, "A", 1);
    let b = warehouse(&mut ledger, "B", 2);
    stock(&mut ledger, a.id, "bolt", 9, 3);
    let held = stock(&mut ledger, b.id, "bolt", 5, 4);
    ledger.transfer_item(1, a.id, b.id, 2, 5).unwrap();
    assert_eq!(ledger.find_item(b.id, &"bolt".to_string()), Some(held));
    assert_eq!(ledger.find_item(b.id, &"nut".to_string()), None);
    assert_eq!(ledger.find_item(9, &"bolt".to_string()), None);
    let merged = stock(&mut ledger, b.id, "bolt", 1, 6);
    assert_eq!(merged.item_id, 2);
    assert_eq!(merged.quantity, 6);
    assert_eq!(ledger.check_stock(3).unwrap().quantity, 2);
}

#[test]
fn decrement_keeps_what_is_left() {
    let mut ledger = Ledger::new();
    let w = warehouse(&mut ledger, "W", 1);
    stock(&mut ledger, w.id, "bolt", 5, 10);
    let left = ledger.delete_item(1, 2, 30).unwrap();
    assert_eq!(
        left,
        StockItem {
            item_id: 1,
            warehouse_id: 1,
            item_name: "bolt".to_string(),
            quantity: 3,
            created_at: 10,
            updated_at: Some(30),
        }
    );
    assert_eq!(ledger.check_stock(1), Ok(left));
}

#[test]
fn decrement_to_zero_removes_the_record() {
    let mut ledger = Ledger::new();
    let w = warehouse(&mut ledger, "W", 1);
    stock(&mut ledger, w.id, "bolt", 5, 10);
    let gone = ledger.delete_item(1, 5, 30).unwrap();
    assert_eq!(gone.quantity, 0);
    assert_eq!(gone.item_id, 1);
    assert_eq!(gone.updated_at, Some(30));
    assert_eq!(ledger.check_stock(1), Err(Error::NotFound(Missing::Item { item_id: 1 })));
    assert!(ledger.get_warehouse_stock(w.id).is_empty());
    assert_eq!(stock(&mut ledger, w.id, "nut", 1, 40).item_id, 1);
}

#[test]
fn decrement_rejections() {
    let mut ledger = Ledger::new();
    let w = warehouse(&mut ledger, "W", 1);
    let item = stock(&mut ledger, w.id, "bolt", 5, 10);
    assert_eq!(ledger.delete_item(4, 1, 20), Err(Error::NotFound(Missing::Item { item_id: 4 })));
    assert_eq!(
        ledger.delete_item(1, 6, 20),
        Err(Error::NotEnoughStock { item_id: 1, available: 5, requested: 6 })
    );
    assert_eq!(ledger.check_stock(1), Ok(item));
}

#[test]
fn transfer_rejects_over_withdrawal() {
    let mut ledger = Ledger::new();
    let w1 = warehouse(&mut ledger, "W1", 1);
    let w2 = warehouse(&mut ledger, "W2", 2);
    let item = stock(&mut ledger, w1.id, "bolt", 4, 10);
    assert_eq!(
        ledger.transfer_item(item.item_id, w1.id, w2.id, 10, 20),
        Err(Error::NotEnoughStock { item_id: 1, available: 4, requested: 10 })
    );
    assert_eq!(ledger.check_stock(item.item_id).unwrap().quantity, 4);
    assert_eq!(ledger.check_stock(item.item_id), Ok(item));
    assert!(ledger.get_warehouse_stock(w2.id).is_empty());
}

#[test]
fn transfer_rejects_warehouse_mismatch() {
    let mut ledger = Ledger::new();
    let w1 = warehouse(&mut ledger, "W1", 1);
    let w2 = warehouse(&mut ledger, "W2", 2);
    let item = stock(&mut ledger, w1.id, "bolt", 4, 10);
    assert_eq!(
        ledger.transfer_item(item.item_id, w2.id, w1.id, 1, 20),
        Err(Error::NotFound(Missing::ItemInWarehouse { item_id: 1, warehouse_id: 2 }))
    );
    assert_eq!(ledger.check_stock(item.item_id), Ok(item.clone()));
    assert_eq!(ledger.get_warehouse_stock(w1.id), vec![item]);
    assert!(ledger.get_warehouse_stock(w2.id).is_empty());
    assert_eq!(stock(&mut ledger, w2.id, "nut", 1, 30).item_id, 2);
}

#[test]
fn transfer_rejects_unknown_item() {
    let mut ledger = Ledger::new();
    let w1 = warehouse(&mut ledger, "W1", 1);
    assert_eq!(
        ledger.transfer_item(3, w1.id, w1.id, 1, 20),
        Err(Error::NotFound(Missing::Item { item_id: 3 }))
    );
    assert!(ledger.get_warehouse_stock(w1.id).is_empty());
}

#[test]
fn transfer_end_to_end() {
    let mut ledger = Ledger::new();
    let a = warehouse(&mut ledger, "A", 1);
    let x = stock(&mut ledger, a.id, "X", 10, 2);
    let b = warehouse(&mut ledger, "B", 3);
    assert_eq!(ledger.transfer_item(x.item_id, a.id, b.id, 4, 4), Ok(()));
    let source = ledger.check_stock(x.item_id).unwrap();
    assert_eq!(source.quantity, 6);
    assert_eq!(source.updated_at, Some(4));
    assert_eq!(source.warehouse_id, a.id);
    let arrived = ledger.get_warehouse_stock(b.id);
    assert_eq!(
        arrived,
        vec![StockItem {
            item_id: 2,
            warehouse_id: b.id,
            item_name: "X".to_string(),
            quantity: 4,
            created_at: 4,
            updated_at: None,
        }]
    );
    assert_ne!(arrived[0].item_id, x.item_id);
}

#[test]
fn transfer_of_everything_keeps_the_source_record() {
    let mut ledger = Ledger::new();
    let a = warehouse(&mut ledger, "A", 1);
    let b = warehouse(&mut ledger, "B", 2);
    stock(&mut ledger, a.id, "X", 3, 3);
    assert_eq!(ledger.transfer_item(1, a.id, b.id, 3, 4), Ok(()));
    assert_eq!(ledger.check_stock(1).unwrap().quantity, 0);
    assert_eq!(ledger.check_stock(2).unwrap().quantity, 3);
}

#[test]
fn transfer_does_not_merge_and_does_not_check_the_destination() {
    let mut ledger = Ledger::new();
    let a = warehouse(&mut ledger, "A", 1);
    let b = warehouse(&mut ledger, "B", 2);
    stock(&mut ledger, a.id, "X", 3, 3);
    stock(&mut ledger, b.id, "X", 5, 4);
    assert_eq!(ledger.transfer_item(1, a.id, b.id, 1, 5), Ok(()));
    let in_b = ledger.get_warehouse_stock(b.id);
    assert_eq!(in_b.len(), 2);
    assert_eq!(in_b[0].item_id, 2);
    assert_eq!(in_b[0].quantity, 5);
    assert_eq!(in_b[1].item_id, 3);
    assert_eq!(in_b[1].quantity, 1);
    assert_eq!(ledger.transfer_item(1, a.id, 40, 1, 6), Ok(()));
    let orphan = ledger.check_stock(4).unwrap();
    assert_eq!(orphan.warehouse_id, 40);
    assert_eq!(orphan.quantity, 1);
    assert_eq!(ledger.get_warehouse(40), Err(Error::NotFound(Missing::Warehouse { warehouse_id: 40 })));
}

#[test]
fn listing_is_in_ascending_order() {
    let mut ledger = Ledger::new();
    let a = warehouse(&mut ledger, "A", 1);
    let b = warehouse(&mut ledger, "B", 2);
    let c = warehouse(&mut ledger, "C", 3);
    let i1 = stock(&mut ledger, b.id, "x", 1, 4);
    let i2 = stock(&mut ledger, a.id, "y", 2, 5);
    let i3 = stock(&mut ledger, b.id, "z", 3, 6);
    let listing = ledger.get_all_warehouses_with_stocks();
    assert_eq!(listing, vec![(a, vec![i2]), (b.clone(), vec![i1.clone(), i3.clone()]), (c, vec![])]);
    assert_eq!(ledger.get_warehouse_stock(b.id), vec![i1, i3]);
}

#[test]
fn many_records_stay_in_key_order() {
    let mut ledger = Ledger::new();
    let w = warehouse(&mut ledger, "W", 0);
    for n in 0..200u64 {
        let name = format!("item-{}", n);
        assert_eq!(stock(&mut ledger, w.id, &name, n + 1, n).item_id, n + 1);
    }
    let all = ledger.get_warehouse_stock(w.id);
    assert_eq!(all.len(), 200);
    for (at, item) in all.iter().enumerate() {
        assert_eq!(item.item_id, at as u64 + 1);
        assert_eq!(item.quantity, at as u64 + 1);
        assert_eq!(item.item_name, format!("item-{}", at));
    }
    for n in 0..100u64 {
        ledger.delete_item(2 * n + 1, 2 * n + 1, 500).unwrap();
    }
    let even = ledger.get_warehouse_stock(w.id);
    assert_eq!(even.len(), 100);
    for (at, item) in even.iter().enumerate() {
        assert_eq!(item.item_id, 2 * at as u64 + 2);
    }
}

#[test]
fn names_are_stored_as_given() {
    let mut ledger = Ledger::new();
    let long = "n".repeat(5000);
    let w = warehouse(&mut ledger, "Lager Süd — 倉庫", 7);
    assert_eq!(ledger.get_warehouse(w.id).unwrap().name, "Lager Süd — 倉庫");
    let item = stock(&mut ledger, w.id, &long, 1, 8);
    assert_eq!(ledger.check_stock(item.item_id).unwrap().item_name, long);
    let stamped = ledger.delete_item(item.item_id, 0, u64::MAX).unwrap();
    assert_eq!(stamped.updated_at, Some(u64::MAX));
    assert_eq!(ledger.check_stock(item.item_id).unwrap().updated_at, Some(u64::MAX));
    let zero_stamp = stock(&mut ledger, w.id, &long, 1, 0);
    assert_eq!(zero_stamp.updated_at, Some(0));
    assert_eq!(ledger.check_stock(item.item_id).unwrap().updated_at, Some(0));
}
