//! What holds of the ledger whatever its state: each operation keeps the
//! invariant, and the operations relate to each other as stated here.

use crate::ids::PoolView;
use crate::model::stock_of_warehouse;
use crate::model::LedgerView;
use crate::record::stock_item_of_row;
use crate::record::stock_row_of;
use crate::record::warehouse_of_row;
use crate::record::warehouse_row_of;
use crate::record::StockItemView;
use crate::record::WarehouseView;
use vstd::prelude::*;

verus! {

/// A record read back from the row it was stored under is the record that
/// was stored.
pub proof fn law_rows_round_trip(warehouse: WarehouseView, item: StockItemView)
    ensures
        warehouse_of_row(warehouse_row_of(warehouse)) == warehouse,
        stock_item_of_row(stock_row_of(item)) == item,
{
}

/// Taking the smallest released identifier out of a pool leaves the others
/// as they were: none twice, each one that waited before.
pub proof fn lemma_pool_without(pool: PoolView, id: u64)
    requires
        pool.wf(),
        pool.recycled.len() > 0,
        pool.recycled.contains(id),
    ensures
        pool.without(id).wf(),
        !pool.without(id).recycled.contains(id),
        forall|k: u64| #[trigger]
            pool.without(id).recycled.contains(k) ==> pool.recycled.contains(k),
        forall|k: u64|
            k != id && pool.recycled.contains(k) ==> #[trigger] pool.without(id).recycled.contains(
                k,
            ),
{
    let s = pool.recycled;
    let at = s.index_of(id);
    let t = s.remove(at);
    s.remove_ensures(at);
    assert forall|i: int, j: int| 0 <= i < t.len() && 0 <= j < t.len() && i != j implies t[i]
        != t[j] by {
        let si = if i < at { i } else { i + 1 };
        let sj = if j < at { j } else { j + 1 };
        assert(t[i] == s[si] && t[j] == s[sj]);
    }
    assert forall|k: u64| #[trigger] t.contains(k) implies s.contains(k) && k != id by {
        let i = choose|i: int| 0 <= i < t.len() && t[i] == k;
        let si = if i < at { i } else { i + 1 };
        assert(t[i] == s[si]);
    }
    assert forall|k: u64| k != id && s.contains(k) implies #[trigger] t.contains(k) by {
        let i = choose|i: int| 0 <= i < s.len() && s[i] == k;
        let ti = if i < at { i } else { i - 1 };
        assert(t[ti] == k);
    }
}

/// A new warehouse gets an identifier that no live warehouse has, and the
/// ledger stays well-formed.
pub proof fn law_new_warehouse_id_is_fresh(
    pre: LedgerView,
    name: Seq<char>,
    now: u64,
    post: LedgerView,
    warehouse: WarehouseView,
)
    requires
        pre.wf(),
        pre.warehouse_ids.can_allocate(),
        pre.warehouse_added(name, now, post, warehouse),
    ensures
        !pre.warehouses.contains_key(warehouse.id),
        post.warehouses.contains_key(warehouse.id),
        post.wf(),
{
    let id = warehouse.id;
    if pre.warehouse_ids.recycled.len() > 0 {
        lemma_pool_without(pre.warehouse_ids, id);
        let i = choose|i: int|
            0 <= i < pre.warehouse_ids.recycled.len() && pre.warehouse_ids.recycled[i] == id;
        assert(pre.warehouse_ids.recycled[i] < pre.warehouse_ids.next);
        assert forall|j: int| 0 <= j < post.warehouse_ids.recycled.len() implies #[trigger]
            post.warehouse_ids.recycled[j] < post.warehouse_ids.next by {
            let k = post.warehouse_ids.recycled[j];
            assert(post.warehouse_ids.recycled.contains(k));
            assert(pre.warehouse_ids.recycled.contains(k));
        }
    }
}

/// The identifier that the item pool hands out next is that of no live
/// item, and the pool stays consistent with the live items.
pub proof fn law_next_item_id_is_fresh(pre: LedgerView, post_ids: PoolView)
    requires
        pre.wf(),
        pre.item_ids.can_allocate(),
        pre.item_ids.allocates_latest(pre.item_ids.latest(), post_ids),
    ensures
        !pre.stock.contains_key(pre.item_ids.latest()),
        pre.item_ids.latest() < post_ids.next,
        pre.item_ids.next <= post_ids.next,
        post_ids.wf(),
        !post_ids.recycled.contains(pre.item_ids.latest()),
        forall|k: u64| #[trigger]
            post_ids.recycled.contains(k) ==> pre.item_ids.recycled.contains(k),
        forall|i: int|
            0 <= i < post_ids.recycled.len() ==> #[trigger] post_ids.recycled[i] < post_ids.next,
{
    let s = pre.item_ids.recycled;
    let id = pre.item_ids.latest();
    if s.len() > 0 {
        let t = s.drop_last();
        assert(s[s.len() - 1] == id);
        assert(s.contains(id));
        assert forall|k: u64| #[trigger] t.contains(k) implies s.contains(k) && k != id by {
            let i = choose|i: int| 0 <= i < t.len() && t[i] == k;
            assert(s[i] == k);
        }
        assert forall|i: int| 0 <= i < t.len() implies #[trigger] t[i] < post_ids.next by {
            assert(t[i] == s[i]);
        }
    }
}

/// Adding stock keeps the ledger well-formed, and the item that comes back
/// is live afterwards.
pub proof fn law_add_keeps_invariant(
    pre: LedgerView,
    warehouse_id: u64,
    name: Seq<char>,
    quantity: u64,
    now: u64,
    post: LedgerView,
    item: StockItemView,
)
    requires
        pre.wf(),
        pre.has_room_for(warehouse_id, name, quantity),
        pre.item_added(warehouse_id, name, quantity, now, post, item),
    ensures
        post.wf(),
        post.stock.contains_key(item.item_id),
        post.stock[item.item_id] == item,
{
    if !pre.holds_item(warehouse_id, name) {
        law_next_item_id_is_fresh(pre, post.item_ids);
    }
}

/// Taking stock from an item keeps the ledger well-formed.
pub proof fn law_decrement_keeps_invariant(
    pre: LedgerView,
    item_id: u64,
    quantity: u64,
    now: u64,
    post: LedgerView,
    item: StockItemView,
)
    requires
        pre.wf(),
        pre.item_decremented(item_id, quantity, now, post, item),
    ensures
        post.wf(),
{
    if item.quantity == 0 {
        let s = pre.item_ids.recycled;
        let t = post.item_ids.recycled;
        assert(t == s.push(item_id));
        assert forall|i: int| 0 <= i < t.len() implies #[trigger] t[i] < post.item_ids.next by {
            if i < s.len() {
                assert(t[i] == s[i]);
            }
        }
        assert forall|k: u64| #[trigger] post.stock.contains_key(k) implies !t.contains(k) by {
            if t.contains(k) {
                let i = choose|i: int| 0 <= i < t.len() && t[i] == k;
                if i < s.len() {
                    assert(s[i] == k);
                    assert(s.contains(k));
                }
            }
        }
        assert forall|i: int, j: int| 0 <= i < t.len() && 0 <= j < t.len() && i != j implies t[i]
            != t[j] by {
            if i < s.len() && j < s.len() {
                assert(s[i] != s[j]);
            } else if i < s.len() {
                assert(s[i] == t[i]);
                assert(s.contains(t[i]));
            } else {
                assert(s[j] == t[j]);
                assert(s.contains(t[j]));
            }
        }
    }
}

/// Moving stock keeps the ledger well-formed; the source item keeps its
/// identifier, and what was moved lies under an identifier that was not live.
pub proof fn law_transfer_keeps_invariant(
    pre: LedgerView,
    item_id: u64,
    from: u64,
    to: u64,
    quantity: u64,
    now: u64,
    post: LedgerView,
)
    requires
        pre.wf(),
        pre.item_ids.can_allocate(),
        pre.item_transferred(item_id, from, to, quantity, now, post),
    ensures
        post.wf(),
        pre.item_ids.latest() != item_id,
        !pre.stock.contains_key(pre.item_ids.latest()),
        post.stock.contains_key(item_id),
        post.stock[item_id].quantity == pre.stock[item_id].quantity - quantity,
        post.stock.contains_key(pre.item_ids.latest()),
        post.stock[pre.item_ids.latest()].quantity == quantity,
        post.stock[pre.item_ids.latest()].warehouse_id == to,
        post.stock[pre.item_ids.latest()].item_name == pre.stock[item_id].item_name,
{
    law_next_item_id_is_fresh(pre, post.item_ids);
}

/// Deleting a warehouse keeps the ledger well-formed: the identifiers that
/// it releases were live, so none of them waited already.
pub proof fn law_delete_keeps_invariant(
    pre: LedgerView,
    warehouse_id: u64,
    post: LedgerView,
    warehouse: WarehouseView,
)
    requires
        pre.wf(),
        pre.warehouse_deleted(warehouse_id, post, warehouse),
    ensures
        post.wf(),
{
    let first = pre.item_ids.recycled;
    let all = post.item_ids.recycled;
    let ids = all.subrange(first.len() as int, all.len() as int);
    assert forall|p: int| 0 <= p < all.len() implies (if p < first.len() {
        all[p] == first[p] && first.contains(all[p])
    } else {
        all[p] == ids[p - first.len()] && pre.stock.contains_key(all[p])
            && pre.stock[all[p]].warehouse_id == warehouse_id
    }) by {
        if p < first.len() {
            assert(all.subrange(0, first.len() as int)[p] == all[p]);
        } else {
            assert(ids[p - first.len()] == all[p]);
            assert(pre.stock.contains_key(ids[p - first.len()]));
        }
    }
    assert forall|p: int, q: int| 0 <= p < all.len() && 0 <= q < all.len() && p != q implies all[p]
        != all[q] by {
        if p >= first.len() && q >= first.len() {
            if p < q {
                assert(ids[p - first.len()] < ids[q - first.len()]);
            } else {
                assert(ids[q - first.len()] < ids[p - first.len()]);
            }
        }
    }
    assert forall|k: u64| #[trigger] post.stock.contains_key(k) implies {
        &&& post.stock[k].item_id == k
        &&& k < post.item_ids.next
        &&& !all.contains(k)
    } by {
        assert(pre.stock.contains_key(k));
        if all.contains(k) {
            let p = choose|p: int| 0 <= p < all.len() && all[p] == k;
        }
    }
    assert forall|p: int| 0 <= p < all.len() implies #[trigger] all[p] < post.item_ids.next by {
        if p < first.len() {
            assert(first[p] == all[p]);
        }
    }
    let waiting = pre.warehouse_ids.recycled;
    let after = post.warehouse_ids.recycled;
    assert(pre.warehouses.contains_key(warehouse_id));
    assert(after == waiting.push(warehouse_id));
    assert forall|p: int, q: int| 0 <= p < after.len() && 0 <= q < after.len() && p
        != q implies after[p] != after[q] by {
        if p < waiting.len() && q < waiting.len() {
            assert(waiting[p] != waiting[q]);
        } else if p < waiting.len() {
            assert(waiting.contains(waiting[p]));
        } else {
            assert(waiting.contains(waiting[q]));
        }
    }
    assert forall|k: u64| #[trigger] post.warehouses.contains_key(k) implies {
        &&& post.warehouses[k].id == k
        &&& k < post.warehouse_ids.next
        &&& !after.contains(k)
    } by {
        assert(pre.warehouses.contains_key(k));
        if after.contains(k) {
            let p = choose|p: int| 0 <= p < after.len() && after[p] == k;
            if p < waiting.len() {
                assert(waiting[p] == k);
                assert(waiting.contains(k));
            }
        }
    }
    assert forall|p: int| 0 <= p < after.len() implies #[trigger] after[p]
        < post.warehouse_ids.next by {
        if p < waiting.len() {
            assert(waiting[p] == after[p]);
        }
    }
}

/// Deleting a warehouse removes it and every stock item that lay in it, and
/// no other: afterwards the stock of that warehouse lists as empty, and the
/// stock of every other warehouse is as it was.
pub proof fn law_delete_cascades(
    pre: LedgerView,
    warehouse_id: u64,
    post: LedgerView,
    warehouse: WarehouseView,
    listing: Seq<StockItemView>,
)
    requires
        pre.warehouse_deleted(warehouse_id, post, warehouse),
        stock_of_warehouse(listing, post.stock, warehouse_id),
    ensures
        !post.warehouses.contains_key(warehouse_id),
        listing.len() == 0,
        forall|k: u64| #[trigger]
            post.stock.contains_key(k) ==> post.stock[k].warehouse_id != warehouse_id,
        forall|k: u64|
            #![trigger pre.stock.contains_key(k)]
            pre.stock.contains_key(k) && pre.stock[k].warehouse_id != warehouse_id
                ==> post.stock.contains_key(k) && post.stock[k] == pre.stock[k],
{
    if listing.len() > 0 {
        assert(post.stock.contains_key(listing[0].item_id));
    }
}

/// A warehouse identifier that was released by a deletion is the next one
/// handed out, unless a smaller one was waiting already.
pub proof fn law_deleted_id_is_reused(
    pre: LedgerView,
    warehouse_id: u64,
    between: LedgerView,
    deleted: WarehouseView,
    name: Seq<char>,
    now: u64,
    post: LedgerView,
    created: WarehouseView,
)
    requires
        pre.wf(),
        pre.warehouse_deleted(warehouse_id, between, deleted),
        forall|i: int|
            0 <= i < pre.warehouse_ids.recycled.len() ==> !(#[trigger] pre.warehouse_ids.recycled[i]
                < warehouse_id),
        between.warehouse_added(name, now, post, created),
    ensures
        created.id == warehouse_id,
{
    let s = pre.warehouse_ids.recycled;
    let t = between.warehouse_ids.recycled;
    assert(!s.contains(warehouse_id));
    assert(t == s.push(warehouse_id));
    assert(t[s.len() as int] == warehouse_id);
    assert(t.contains(created.id));
    let i = choose|i: int| 0 <= i < t.len() && t[i] == created.id;
    if i < s.len() {
        assert(s[i] == created.id);
    }
}

/// Stock added twice under one name to one warehouse is one item: the
/// second addition merges into the item that the first one gave, and adds
/// no record.
pub proof fn law_add_merges(
    pre: LedgerView,
    warehouse_id: u64,
    name: Seq<char>,
    first_quantity: u64,
    first_time: u64,
    between: LedgerView,
    first: StockItemView,
    second_quantity: u64,
    second_time: u64,
    post: LedgerView,
    second: StockItemView,
)
    requires
        pre.wf(),
        pre.has_room_for(warehouse_id, name, first_quantity),
        pre.item_added(warehouse_id, name, first_quantity, first_time, between, first),
        between.has_room_for(warehouse_id, name, second_quantity),
        between.item_added(warehouse_id, name, second_quantity, second_time, post, second),
    ensures
        second.item_id == first.item_id,
        second.quantity == first.quantity + second_quantity,
        post.stock.dom() == between.stock.dom(),
        forall|k: u64|
            post.same_item(k, warehouse_id, name) <==> between.same_item(k, warehouse_id, name),
{
    law_add_keeps_invariant(
        pre,
        warehouse_id,
        name,
        first_quantity,
        first_time,
        between,
        first,
    );
    assert(between.same_item(first.item_id, warehouse_id, name));
    if !pre.holds_item(warehouse_id, name) {
        law_next_item_id_is_fresh(pre, between.item_ids);
        assert forall|j: u64| j != first.item_id implies !between.same_item(
            j,
            warehouse_id,
            name,
        ) by {
            if between.same_item(j, warehouse_id, name) {
                assert(pre.same_item(j, warehouse_id, name));
            }
        }
    } else {
        assert forall|j: u64| j < first.item_id implies !between.same_item(
            j,
            warehouse_id,
            name,
        ) by {
            if between.same_item(j, warehouse_id, name) {
                assert(pre.same_item(j, warehouse_id, name));
            }
        }
    }
    assert(between.merge_target(first.item_id, warehouse_id, name));
    if second.item_id < first.item_id {
        assert(!between.same_item(second.item_id, warehouse_id, name));
    }
    assert(post.stock.dom() =~= between.stock.dom());
}

/// Taking from a stock item all that it holds removes its record: the item
/// is not live afterwards, and its identifier waits for reuse.
pub proof fn law_decrement_to_zero_removes(
    pre: LedgerView,
    item_id: u64,
    now: u64,
    post: LedgerView,
    item: StockItemView,
)
    requires
        pre.stock.contains_key(item_id),
        pre.item_decremented(item_id, pre.stock[item_id].quantity, now, post, item),
    ensures
        item.quantity == 0,
        !post.stock.contains_key(item_id),
        post.item_ids.recycled.contains(item_id),
{
    let s = pre.item_ids.recycled;
    if !s.contains(item_id) {
        assert(s.push(item_id)[s.len() as int] == item_id);
    }
}

/// A transfer moves exactly what was asked for: the source and the new item
/// together hold what the source held, and no other record comes or goes.
pub proof fn law_transfer_conserves(
    pre: LedgerView,
    item_id: u64,
    from: u64,
    to: u64,
    quantity: u64,
    now: u64,
    post: LedgerView,
)
    requires
        pre.wf(),
        pre.item_ids.can_allocate(),
        pre.item_transferred(item_id, from, to, quantity, now, post),
    ensures
        pre.transfer_refused(item_id, from, quantity) is None,
        post.stock[item_id].quantity + post.stock[pre.item_ids.latest()].quantity
            == pre.stock[item_id].quantity,
        post.stock.dom() == pre.stock.dom().insert(pre.item_ids.latest()),
{
    law_transfer_keeps_invariant(pre, item_id, from, to, quantity, now, post);
    assert(post.stock.dom() =~= pre.stock.dom().insert(pre.item_ids.latest()));
}

/// Releasing an identifier twice is releasing it once.
pub proof fn law_release_is_idempotent(pool: PoolView, id: u64)
    ensures
        pool.released(id).released(id) == pool.released(id),
        pool.released(id).recycled.contains(id),
{
    if !pool.recycled.contains(id) {
        assert(pool.recycled.push(id)[pool.recycled.len() as int] == id);
    }
}

/// Adding stock leaves no live item empty: an addition that is not refused
/// adds something.
pub proof fn law_add_keeps_items_stocked(
    pre: LedgerView,
    warehouse_id: u64,
    name: Seq<char>,
    quantity: u64,
    now: u64,
    post: LedgerView,
    item: StockItemView,
)
    requires
        pre.wf(),
        pre.stocked(),
        pre.add_refused(warehouse_id, name, quantity) is None,
        pre.has_room_for(warehouse_id, name, quantity),
        pre.item_added(warehouse_id, name, quantity, now, post, item),
    ensures
        post.stocked(),
{
}

/// Taking stock leaves no live item empty: an item that is left with nothing
/// goes.
pub proof fn law_decrement_keeps_items_stocked(
    pre: LedgerView,
    item_id: u64,
    quantity: u64,
    now: u64,
    post: LedgerView,
    item: StockItemView,
)
    requires
        pre.stocked(),
        pre.item_decremented(item_id, quantity, now, post, item),
    ensures
        post.stocked(),
{
}

/// A transfer leaves no live item empty where it moves something and less
/// than the source holds. One that moves all that the source holds leaves
/// the source's record behind with nothing in it.
pub proof fn law_transfer_keeps_items_stocked(
    pre: LedgerView,
    item_id: u64,
    from: u64,
    to: u64,
    quantity: u64,
    now: u64,
    post: LedgerView,
)
    requires
        pre.wf(),
        pre.stocked(),
        pre.item_ids.can_allocate(),
        pre.item_transferred(item_id, from, to, quantity, now, post),
    ensures
        0 < quantity < pre.stock[item_id].quantity ==> post.stocked(),
        quantity == pre.stock[item_id].quantity ==> post.stock.contains_key(item_id)
            && post.stock[item_id].quantity == 0,
{
    law_transfer_keeps_invariant(pre, item_id, from, to, quantity, now, post);
}

} // verus!
