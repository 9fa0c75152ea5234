use mock_wms::ledger::{DispatchItem, DispatchRequest, DispatchStatus, InventoryRecord, Ledger, RejectReason};

fn req(order_id: u32, lines: &[(u32, u32)]) -> DispatchRequest {
    let mut items = Vec::new();
    for &(item_id, quantity) in lines {
        items.push(DispatchItem { item_id, quantity });
    }
    DispatchRequest { order_id, items }
}

fn quantity_of(l: &Ledger, item_id: u32) -> u32 {
    l.lookup(item_id).expect("item should exist").quantity
}

#[test]
fn seed_inventory() {
    let l = Ledger::new();
    let inv = l.list_inventory();
    assert_eq!(inv.len(), 3);
    assert_eq!(inv[0].item_id, 1);
    assert_eq!(inv[0].item_name, "Widget A");
    assert_eq!(inv[0].quantity, 100);
    assert_eq!(inv[0].warehouse_location, "A1");
    assert_eq!(inv[1].item_id, 2);
    assert_eq!(inv[1].item_name, "Widget B");
    assert_eq!(inv[1].quantity, 200);
    assert_eq!(inv[1].warehouse_location, "B2");
    assert_eq!(inv[2].item_id, 3);
    assert_eq!(inv[2].item_name, "Widget C");
    assert_eq!(inv[2].quantity, 50);
    assert_eq!(inv[2].warehouse_location, "C3");
    assert!(l.list_dispatches().is_empty());
}

#[test]
fn accepted_dispatch_deducts() {
    let mut l = Ledger::new();
    let rec = l.submit(req(1, &[(1, 30)]));
    assert_eq!(rec.dispatch_id, 1);
    assert_eq!(rec.order_id, 1);
    assert_eq!(rec.status, DispatchStatus::Processing);
    assert_eq!(quantity_of(&l, 1), 70);
    let log = l.list_dispatches();
    assert_eq!(log.len(), 1);
    assert_eq!(log[0].dispatch_id, 1);
    assert_eq!(log[0].status, DispatchStatus::Processing);
}

#[test]
fn unknown_item_rejects_and_leaves_stock() {
    let mut l = Ledger::new();
    let rec = l.submit(req(2, &[(99, 1)]));
    assert_eq!(rec.status, DispatchStatus::Rejected);
    assert_eq!(quantity_of(&l, 1), 100);
    assert_eq!(quantity_of(&l, 2), 200);
    assert_eq!(quantity_of(&l, 3), 50);
    assert_eq!(l.list_dispatches().len(), 1);
    assert_eq!(l.list_dispatches()[0].status, DispatchStatus::Rejected);
}

#[test]
fn insufficient_stock_rejects_and_leaves_stock() {
    let mut l = Ledger::new();
    let rec = l.submit(req(3, &[(3, 51)]));
    assert_eq!(rec.status, DispatchStatus::Rejected);
    assert_eq!(quantity_of(&l, 3), 50);
}

#[test]
fn all_or_nothing_two_lines() {
    let mut l = Ledger::new();
    // Second line names an unknown item: nothing may be deducted.
    let rec = l.submit(req(4, &[(1, 10), (99, 1)]));
    assert_eq!(rec.status, DispatchStatus::Rejected);
    assert_eq!(quantity_of(&l, 1), 100);
    // Second line asks for more than stocked: nothing may be deducted.
    let rec2 = l.submit(req(5, &[(1, 10), (3, 51)]));
    assert_eq!(rec2.status, DispatchStatus::Rejected);
    assert_eq!(quantity_of(&l, 1), 100);
    assert_eq!(quantity_of(&l, 3), 50);
}

#[test]
fn duplicate_lines_are_cumulative() {
    let mut l = Ledger::new();
    // Item 3 stocks 50: two lines of 30 together overdraw, so the whole
    // request is rejected even though each line alone is covered.
    let rec = l.submit(req(6, &[(3, 30), (3, 30)]));
    assert_eq!(rec.status, DispatchStatus::Rejected);
    assert_eq!(quantity_of(&l, 3), 50);
    // 30 then 20 exactly drains it.
    let rec2 = l.submit(req(7, &[(3, 30), (3, 20)]));
    assert_eq!(rec2.status, DispatchStatus::Processing);
    assert_eq!(quantity_of(&l, 3), 0);
}

#[test]
fn dispatch_ids_run_from_one_in_order() {
    let mut l = Ledger::new();
    l.submit(req(10, &[(1, 1)]));
    l.submit(req(11, &[(99, 1)]));
    l.submit(req(12, &[(2, 5)]));
    let log = l.list_dispatches();
    assert_eq!(log.len(), 3);
    for (i, rec) in log.iter().enumerate() {
        assert_eq!(rec.dispatch_id, (i + 1) as u32);
    }
    assert_eq!(log[0].order_id, 10);
    assert_eq!(log[1].order_id, 11);
    assert_eq!(log[2].order_id, 12);
}

#[test]
fn reads_are_idempotent() {
    let mut l = Ledger::new();
    l.submit(req(13, &[(2, 25)]));
    let first: Vec<(u32, u32)> =
        l.list_inventory().iter().map(|r| (r.item_id, r.quantity)).collect();
    let second: Vec<(u32, u32)> =
        l.list_inventory().iter().map(|r| (r.item_id, r.quantity)).collect();
    assert_eq!(first, second);
}

#[test]
fn contended_stock_serializes_to_one_winner() {
    // Two requests race for an item stocking 10, each asking 6; under the
    // mutex they serialize, and whichever runs second must be rejected.
    for flip in [false, true] {
        let mut inventory = Vec::new();
        inventory.push(InventoryRecord {
            item_id: 7,
            item_name: "Widget D".to_string(),
            quantity: 10,
            warehouse_location: "D4".to_string(),
        });
        let mut l = Ledger { inventory, dispatches: Vec::new(), next_dispatch_id: 1 };
        let (first_order, second_order) = if flip { (21, 20) } else { (20, 21) };
        let a = l.submit(req(first_order, &[(7, 6)]));
        let b = l.submit(req(second_order, &[(7, 6)]));
        assert_eq!(a.status, DispatchStatus::Processing);
        assert_eq!(b.status, DispatchStatus::Rejected);
        assert_eq!(quantity_of(&l, 7), 4);
    }
}

#[test]
fn check_request_names_the_first_failure() {
    let l = Ledger::new();
    assert_eq!(l.check_request(&req(30, &[(1, 100)])), None);
    assert_eq!(
        l.check_request(&req(31, &[(99, 1)])),
        Some(RejectReason::UnknownItem(99))
    );
    assert_eq!(
        l.check_request(&req(32, &[(3, 51)])),
        Some(RejectReason::InsufficientStock(3))
    );
    // The first failing line decides.
    assert_eq!(
        l.check_request(&req(33, &[(3, 51), (99, 1)])),
        Some(RejectReason::InsufficientStock(3))
    );
}

#[test]
fn lookup_miss_is_none() {
    let l = Ledger::new();
    assert!(l.lookup(99).is_none());
    assert!(l.lookup(0).is_none());
}

#[test]
fn empty_request_is_accepted_and_deducts_nothing() {
    let mut l = Ledger::new();
    let rec = l.submit(req(40, &[]));
    assert_eq!(rec.status, DispatchStatus::Processing);
    assert_eq!(quantity_of(&l, 1), 100);
    assert_eq!(quantity_of(&l, 2), 200);
    assert_eq!(quantity_of(&l, 3), 50);
}
