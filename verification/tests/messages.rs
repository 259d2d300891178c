use inventory_ledger::message::decimal_string;
use inventory_ledger::record::Error;
use inventory_ledger::record::Invalid;
use inventory_ledger::record::Missing;

#[test]
fn decimal_string_writes_decimal() {
    assert_eq!(decimal_string(0), "0");
    assert_eq!(decimal_string(7), "7");
    assert_eq!(decimal_string(9), "9");
    assert_eq!(decimal_string(10), "10");
    assert_eq!(decimal_string(105), "105");
    assert_eq!(decimal_string(1234567890), "1234567890");
    assert_eq!(decimal_string(u64::MAX), "18446744073709551615");
    for n in 0..2000u64 {
        assert_eq!(decimal_string(n), format!("{}", n));
    }
}

#[test]
fn not_found_messages_show_the_identifiers() {
    assert_eq!(
        Error::NotFound(Missing::Warehouse { warehouse_id: 12 }).message(),
        "Warehouse with id=12 not found"
    );
    assert_eq!(Error::NotFound(Missing::Item { item_id: 0 }).message(), "Item with id=0 not found");
    assert_eq!(
        Error::NotFound(Missing::ItemInWarehouse { item_id: 31, warehouse_id: 4 }).message(),
        "Item with id=31 not found in warehouse_id=4"
    );
}

#[test]
fn invalid_input_messages() {
    assert_eq!(Error::InvalidInput(Invalid::EmptyName).message(), "The name must not be empty");
    assert_eq!(
        Error::InvalidInput(Invalid::ZeroQuantity).message(),
        "The quantity must be greater than 0"
    );
}

#[test]
fn not_enough_stock_message_shows_both_quantities() {
    assert_eq!(
        Error::NotEnoughStock { item_id: 1, available: 4, requested: 10 }.message(),
        "Not enough stock for item_id=1, available=4, requested=10"
    );
    assert_eq!(
        Error::NotEnoughStock { item_id: u64::MAX, available: 0, requested: u64::MAX }.message(),
        "Not enough stock for item_id=18446744073709551615, available=0, requested=18446744073709551615"
    );
}
