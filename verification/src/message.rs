//! The text of an error: a sentence for the caller that shows the
//! identifiers and quantities the error carries, in decimal.

use crate::record::Error;
use crate::record::Invalid;
use crate::record::Missing;
use vstd::prelude::*;

verus! {

/// The character of a decimal digit.
pub open spec fn digit(d: nat) -> char {
    if d == 0 {
        '0'
    } else if d == 1 {
        '1'
    } else if d == 2 {
        '2'
    } else if d == 3 {
        '3'
    } else if d == 4 {
        '4'
    } else if d == 5 {
        '5'
    } else if d == 6 {
        '6'
    } else if d == 7 {
        '7'
    } else if d == 8 {
        '8'
    } else {
        '9'
    }
}

/// A number written in decimal, without leading zeros.
pub open spec fn decimal(n: nat) -> Seq<char>
    decreases n,
{
    if n < 10 {
        seq![digit(n)]
    } else {
        decimal(n / 10).push(digit(n % 10))
    }
}

/// The text of an error.
pub open spec fn message_text(e: Error) -> Seq<char> {
    match e {
        Error::NotFound(Missing::Warehouse { warehouse_id }) => "Warehouse with id="@ + decimal(
            warehouse_id as nat,
        ) + " not found"@,
        Error::NotFound(Missing::Item { item_id }) => "Item with id="@ + decimal(item_id as nat)
            + " not found"@,
        Error::NotFound(Missing::ItemInWarehouse { item_id, warehouse_id }) => "Item with id="@
            + decimal(item_id as nat) + " not found in warehouse_id="@ + decimal(
            warehouse_id as nat,
        ),
        Error::InvalidInput(Invalid::EmptyName) => "The name must not be empty"@,
        Error::InvalidInput(Invalid::ZeroQuantity) => "The quantity must be greater than 0"@,
        Error::NotEnoughStock { item_id, available, requested } => "Not enough stock for item_id="@
            + decimal(item_id as nat) + ", available="@ + decimal(available as nat)
            + ", requested="@ + decimal(requested as nat),
    }
}

/// The text of one decimal digit.
fn digit_text(d: u64) -> (text: &'static str)
    requires
        d < 10,
    ensures
        text@ == seq![digit(d as nat)],
{
    proof {
        reveal_strlit("0");
        reveal_strlit("1");
        reveal_strlit("2");
        reveal_strlit("3");
        reveal_strlit("4");
        reveal_strlit("5");
        reveal_strlit("6");
        reveal_strlit("7");
        reveal_strlit("8");
        reveal_strlit("9");
    }
    let text = if d == 0 {
        "0"
    } else if d == 1 {
        "1"
    } else if d == 2 {
        "2"
    } else if d == 3 {
        "3"
    } else if d == 4 {
        "4"
    } else if d == 5 {
        "5"
    } else if d == 6 {
        "6"
    } else if d == 7 {
        "7"
    } else if d == 8 {
        "8"
    } else {
        "9"
    };
    assert(text@ =~= seq![digit(d as nat)]);
    text
}

/// A number written in decimal.
pub fn decimal_string(n: u64) -> (text: String)
    ensures
        text@ == decimal(n as nat),
    decreases n,
{
    if n < 10 {
        String::from_str(digit_text(n))
    } else {
        let head = decimal_string(n / 10);
        let text = head.concat(digit_text(n % 10));
        assert(text@ =~= decimal(n as nat));
        text
    }
}

impl Error {
    /// The text of this error, for the caller to read.
    pub fn message(&self) -> (text: String)
        ensures
            text@ == message_text(*self),
    {
        match *self {
            Error::NotFound(Missing::Warehouse { warehouse_id }) => {
                let id = decimal_string(warehouse_id);
                String::from_str("Warehouse with id=").concat(id.as_str()).concat(" not found")
            },
            Error::NotFound(Missing::Item { item_id }) => {
                let id = decimal_string(item_id);
                String::from_str("Item with id=").concat(id.as_str()).concat(" not found")
            },
            Error::NotFound(Missing::ItemInWarehouse { item_id, warehouse_id }) => {
                let id = decimal_string(item_id);
                let place = decimal_string(warehouse_id);
                String::from_str("Item with id=").concat(id.as_str()).concat(
                    " not found in warehouse_id=",
                ).concat(place.as_str())
            },
            Error::InvalidInput(Invalid::EmptyName) => String::from_str(
                "The name must not be empty",
            ),
            Error::InvalidInput(Invalid::ZeroQuantity) => String::from_str(
                "The quantity must be greater than 0",
            ),
            Error::NotEnoughStock { item_id, available, requested } => {
                let id = decimal_string(item_id);
                let have = decimal_string(available);
                let want = decimal_string(requested);
                String::from_str("Not enough stock for item_id=").concat(id.as_str()).concat(
                    ", available=",
                ).concat(have.as_str()).concat(", requested=").concat(want.as_str())
            },
        }
    }
}

} // verus!
