//! The ledger: the in-memory authority for inventory levels and the dispatch
//! log. `submit` is the check-and-deduct allocation step; it must be called
//! under mutual exclusion (the embedding program holds the ledger behind a
//! mutex), and every call either reserves a whole request or rejects it
//! without touching any quantity.
use vstd::prelude::*;

verus! {

/// One requested line of a dispatch: an item and how many of it.
#[derive(Clone, Copy, PartialEq, Eq, Structural, Debug)]
pub struct DispatchItem {
    pub item_id: u32,
    pub quantity: u32,
}

/// A stocked item. Quantities are counts and can never be negative.
#[derive(Debug)]
pub struct InventoryRecord {
    pub item_id: u32,
    pub item_name: String,
    pub quantity: u32,
    pub warehouse_location: String,
}

/// Lifecycle of a dispatch record. `Pending` exists only while `submit`
/// evaluates a request; every record in the log is `Processing` or
/// `Rejected`, and neither is ever changed again.
#[derive(Clone, Copy, PartialEq, Eq, Structural, Debug)]
pub enum DispatchStatus {
    Pending,
    Processing,
    Rejected,
}

/// Why a request was rejected: the first line that failed, and how.
#[derive(Clone, Copy, PartialEq, Eq, Structural, Debug)]
pub enum RejectReason {
    UnknownItem(u32),
    InsufficientStock(u32),
}

/// One entry of the append-only dispatch log.
#[derive(Debug)]
pub struct DispatchRecord {
    pub dispatch_id: u32,
    pub order_id: u32,
    pub items: Vec<DispatchItem>,
    pub status: DispatchStatus,
    pub created_at: i64,
}

/// A decoded dispatch request, as it arrives off the wire.
#[derive(Debug)]
pub struct DispatchRequest {
    pub order_id: u32,
    pub items: Vec<DispatchItem>,
}

/// Item identifiers are unique across the inventory.
pub open spec fn inv_wf(inv: Seq<InventoryRecord>) -> bool {
    forall|i: int, j: int|
        0 <= i < j < inv.len() ==> (#[trigger] inv[i]).item_id != (#[trigger] inv[j]).item_id
}

/// Some inventory record carries this item identifier.
pub open spec fn has_item(inv: Seq<InventoryRecord>, item_id: u32) -> bool {
    exists|i: int| 0 <= i < inv.len() && inv[i].item_id == item_id
}

/// The position of the record with this item identifier (unique when
/// `inv_wf` holds).
pub open spec fn item_index(inv: Seq<InventoryRecord>, item_id: u32) -> int {
    choose|i: int| 0 <= i < inv.len() && inv[i].item_id == item_id
}

/// The same record with its quantity replaced.
pub open spec fn set_qty(r: InventoryRecord, q: u32) -> InventoryRecord {
    InventoryRecord {
        item_id: r.item_id,
        item_name: r.item_name,
        quantity: q,
        warehouse_location: r.warehouse_location,
    }
}

/// Deduct `q` from the record at position `i`.
pub open spec fn deduct_at(inv: Seq<InventoryRecord>, i: int, q: u32) -> Seq<InventoryRecord> {
    inv.update(i, set_qty(inv[i], ((inv[i].quantity - q) as u32)))
}

/// Evaluate one request line against an inventory state: reject an unknown
/// item or an uncovered quantity, otherwise deduct.
pub open spec fn apply_one(inv: Seq<InventoryRecord>, it: DispatchItem) -> Result<
    Seq<InventoryRecord>,
    RejectReason,
> {
    if !has_item(inv, it.item_id) {
        Err(RejectReason::UnknownItem(it.item_id))
    } else {
        let i = item_index(inv, it.item_id);
        if inv[i].quantity < it.quantity {
            Err(RejectReason::InsufficientStock(it.item_id))
        } else {
            Ok(deduct_at(inv, i, it.quantity))
        }
    }
}

/// Evaluate the lines of a request in order, each against the inventory as
/// the earlier lines left it; the first failing line decides the rejection.
pub open spec fn spec_process_items(
    inv: Seq<InventoryRecord>,
    items: Seq<DispatchItem>,
) -> Result<Seq<InventoryRecord>, RejectReason>
    decreases items.len(),
{
    if items.len() == 0 {
        Ok(inv)
    } else {
        match spec_process_items(inv, items.drop_last()) {
            Ok(cur) => apply_one(cur, items.last()),
            Err(e) => Err(e),
        }
    }
}

/// The inventory after a submission: deducted when every line was covered,
/// untouched otherwise.
pub open spec fn outcome_inventory(
    inv: Seq<InventoryRecord>,
    items: Seq<DispatchItem>,
) -> Seq<InventoryRecord> {
    match spec_process_items(inv, items) {
        Ok(inv2) => inv2,
        Err(_) => inv,
    }
}

/// The terminal status a submission earns.
pub open spec fn outcome_status(
    inv: Seq<InventoryRecord>,
    items: Seq<DispatchItem>,
) -> DispatchStatus {
    match spec_process_items(inv, items) {
        Ok(_) => DispatchStatus::Processing,
        Err(_) => DispatchStatus::Rejected,
    }
}

/// The inventory with each record's quantity replaced by the matching entry
/// of `qts`.
pub open spec fn with_qtys(inv: Seq<InventoryRecord>, qts: Seq<u32>) -> Seq<InventoryRecord> {
    Seq::new(inv.len(), |j: int| set_qty(inv[j], qts[j]))
}

/// The record a submission yields: the allocated identifier, the caller's
/// order and lines, and the earned status.
pub open spec fn record_matches(
    rec: DispatchRecord,
    dispatch_id: u32,
    order_id: u32,
    items: Seq<DispatchItem>,
    status: DispatchStatus,
) -> bool {
    &&& rec.dispatch_id == dispatch_id
    &&& rec.order_id == order_id
    &&& rec.items@ == items
    &&& rec.status == status
}

/// How one `submit` call moves the ledger: the inventory follows the
/// evaluation outcome, exactly one record is appended, everything earlier in
/// the log is untouched, and the next identifier advances by one.
pub open spec fn post_submit(
    pre: Ledger,
    post: Ledger,
    order_id: u32,
    items: Seq<DispatchItem>,
) -> bool {
    &&& post.inventory@ == outcome_inventory(pre.inventory@, items)
    &&& post.next_dispatch_id == pre.next_dispatch_id + 1
    &&& post.dispatches@.len() == pre.dispatches@.len() + 1
    &&& forall|i: int|
        0 <= i < pre.dispatches@.len() ==> post.dispatches@[i] == pre.dispatches@[i]
    &&& record_matches(
        post.dispatches@.last(),
        pre.next_dispatch_id,
        order_id,
        items,
        outcome_status(pre.inventory@, items),
    )
}

/// The ledger. All mutation happens inside `submit`; reads are snapshots.
#[derive(Debug)]
pub struct Ledger {
    pub inventory: Vec<InventoryRecord>,
    pub dispatches: Vec<DispatchRecord>,
    pub next_dispatch_id: u32,
}

impl Ledger {
    /// Internal consistency: unique item identifiers, dispatch identifiers
    /// equal to one past their log position (so they run 1, 2, 3, ... with
    /// no gaps), the next identifier one past the log, and only terminal
    /// statuses in the log.
    pub open spec fn wf(&self) -> bool {
        &&& inv_wf(self.inventory@)
        &&& self.next_dispatch_id == self.dispatches@.len() + 1
        &&& forall|i: int|
            0 <= i < self.dispatches@.len() ==> (#[trigger] self.dispatches@[i]).dispatch_id == i
                + 1
        &&& forall|i: int|
            0 <= i < self.dispatches@.len() ==> (#[trigger] self.dispatches@[i]).status
                != DispatchStatus::Pending
    }
}

/// The fixed seed stock the process starts from.
pub open spec fn is_seed_inventory(inv: Seq<InventoryRecord>) -> bool {
    &&& inv.len() == 3
    &&& inv[0].item_id == 1 && inv[0].item_name@ == "Widget A"@ && inv[0].quantity == 100
        && inv[0].warehouse_location@ == "A1"@
    &&& inv[1].item_id == 2 && inv[1].item_name@ == "Widget B"@ && inv[1].quantity == 200
        && inv[1].warehouse_location@ == "B2"@
    &&& inv[2].item_id == 3 && inv[2].item_name@ == "Widget C"@ && inv[2].quantity == 50
        && inv[2].warehouse_location@ == "C3"@
}

/// Relies on chrono::Utc::now, reduced to a unix timestamp with
/// chrono::DateTime::timestamp_millis. The value depends on the wall clock,
/// so nothing is promised of it.
#[verifier::external_body]
fn now_millis() -> i64 {
    chrono::Utc::now().timestamp_millis()
}

/// When a record with the given identifier stands at `idx`, that is the one
/// position `item_index` denotes.
pub proof fn lemma_item_index_of(inv: Seq<InventoryRecord>, item_id: u32, idx: int)
    requires
        inv_wf(inv),
        0 <= idx < inv.len(),
        inv[idx].item_id == item_id,
    ensures
        has_item(inv, item_id),
        item_index(inv, item_id) == idx,
{
    assert(has_item(inv, item_id));
    let j = item_index(inv, item_id);
    assert(0 <= j < inv.len() && inv[j].item_id == item_id);
    if j < idx {
        assert(inv[j].item_id != inv[idx].item_id);
    } else if idx < j {
        assert(inv[idx].item_id != inv[j].item_id);
    }
}

/// Once a prefix of the request fails, the whole request fails the same way.
proof fn lemma_err_extends(
    inv: Seq<InventoryRecord>,
    items: Seq<DispatchItem>,
    m: int,
    e: RejectReason,
)
    requires
        0 <= m <= items.len(),
        spec_process_items(inv, items.take(m)) == Err::<Seq<InventoryRecord>, RejectReason>(e),
    ensures
        spec_process_items(inv, items) == Err::<Seq<InventoryRecord>, RejectReason>(e),
    decreases items.len() - m,
{
    if m == items.len() {
        assert(items.take(m) =~= items);
    } else {
        assert(items.take(m + 1).drop_last() =~= items.take(m));
        lemma_err_extends(inv, items, m + 1, e);
    }
}

/// Law: a submission never invents, renames, relocates or removes a stocked
/// item, and never raises a quantity — it can only lower quantities, and
/// only by amounts the stock covered (so, with quantities being counts, no
/// quantity is ever negative).
pub proof fn lemma_outcome_frame(inv: Seq<InventoryRecord>, items: Seq<DispatchItem>)
    ensures
        outcome_inventory(inv, items).len() == inv.len(),
        forall|j: int|
            0 <= j < inv.len() ==> {
                let r2 = #[trigger] outcome_inventory(inv, items)[j];
                r2.item_id == inv[j].item_id && r2.item_name == inv[j].item_name
                    && r2.warehouse_location == inv[j].warehouse_location && r2.quantity
                    <= inv[j].quantity
            },
    decreases items.len(),
{
    if items.len() == 0 {
    } else {
        let prefix = items.drop_last();
        lemma_outcome_frame(inv, prefix);
        match spec_process_items(inv, prefix) {
            Ok(cur) => {
                match apply_one(cur, items.last()) {
                    Ok(inv2) => {
                        assert(outcome_inventory(inv, items) == inv2);
                        assert(outcome_inventory(inv, prefix) == cur);
                    }
                    Err(_) => {}
                }
            }
            Err(_) => {}
        }
    }
}

/// Law: a submission preserves the uniqueness of item identifiers.
pub proof fn lemma_outcome_wf(inv: Seq<InventoryRecord>, items: Seq<DispatchItem>)
    requires
        inv_wf(inv),
    ensures
        inv_wf(outcome_inventory(inv, items)),
{
    lemma_outcome_frame(inv, items);
}

/// Law: all-or-nothing. A request is rejected exactly when its evaluation
/// fails on some line, and a rejected request leaves every quantity (indeed
/// every record) unchanged — there is no partial deduction.
pub proof fn lemma_all_or_nothing(inv: Seq<InventoryRecord>, items: Seq<DispatchItem>)
    ensures
        (outcome_status(inv, items) == DispatchStatus::Rejected) <==> (spec_process_items(
            inv,
            items,
        ) is Err),
        spec_process_items(inv, items) is Err ==> outcome_inventory(inv, items) == inv,
{
}

/// Law: in a well-formed ledger the dispatch identifiers of the N logged
/// records are exactly the set {1, ..., N} — every identifier in that range
/// is issued, none outside it, none twice — and they stand in log (that is,
/// allocation) order.
pub proof fn lemma_dispatch_ids_sequential(l: Ledger)
    requires
        l.wf(),
    ensures
        forall|i: int|
            0 <= i < l.dispatches@.len() ==> (#[trigger] l.dispatches@[i]).dispatch_id == i + 1,
        forall|i: int, j: int|
            0 <= i < j < l.dispatches@.len() ==> l.dispatches@[i].dispatch_id
                != l.dispatches@[j].dispatch_id,
        forall|i: int|
            0 <= i < l.dispatches@.len() ==> 1 <= (#[trigger] l.dispatches@[i]).dispatch_id
                <= l.dispatches@.len(),
        forall|id: int|
            1 <= id <= l.dispatches@.len() ==> (#[trigger] l.dispatches@[id - 1]).dispatch_id
                == id,
{
}

/// Law: no inventory quantity is ever negative. Quantities are counts, and
/// a submission only ever lowers them by covered amounts.
pub proof fn lemma_quantity_never_negative(inv: Seq<InventoryRecord>, items: Seq<DispatchItem>)
    ensures
        forall|j: int|
            0 <= j < outcome_inventory(inv, items).len() ==> (#[trigger] outcome_inventory(
                inv,
                items,
            )[j]).quantity >= 0,
        forall|j: int|
            0 <= j < inv.len() ==> (#[trigger] outcome_inventory(inv, items)[j]).quantity
                <= inv[j].quantity,
{
    lemma_outcome_frame(inv, items);
}

/// The position of the record carrying `item_id`, by linear scan.
fn find_index(inv: &Vec<InventoryRecord>, item_id: u32) -> (r: Option<usize>)
    ensures
        match r {
            Some(idx) => idx < inv@.len() && inv@[idx as int].item_id == item_id,
            None => !has_item(inv@, item_id),
        },
{
    let mut i: usize = 0;
    while i < inv.len()
        invariant
            i <= inv@.len(),
            forall|l: int| 0 <= l < i ==> (#[trigger] inv@[l]).item_id != item_id,
        decreases inv@.len() - i,
    {
        if inv[i].item_id == item_id {
            return Some(i);
        }
        i += 1;
    }
    None
}

/// Evaluate a request against an inventory without touching it: either the
/// full vector of deducted quantities, or the first failure.
fn evaluate(inv: &Vec<InventoryRecord>, items: &Vec<DispatchItem>) -> (res: Result<
    Vec<u32>,
    RejectReason,
>)
    requires
        inv_wf(inv@),
    ensures
        match res {
            Ok(qts) => qts@.len() == inv@.len() && spec_process_items(inv@, items@) == Ok::<
                _,
                RejectReason,
            >(with_qtys(inv@, qts@)),
            Err(e) => spec_process_items(inv@, items@) == Err::<Seq<InventoryRecord>, _>(e),
        },
{
    let mut qts: Vec<u32> = Vec::new();
    let mut j: usize = 0;
    while j < inv.len()
        invariant
            j <= inv@.len(),
            qts@.len() == j,
            forall|l: int| 0 <= l < j ==> qts@[l] == (#[trigger] inv@[l]).quantity,
        decreases inv@.len() - j,
    {
        qts.push(inv[j].quantity);
        j += 1;
    }
    proof {
        assert(with_qtys(inv@, qts@) =~= inv@);
    }
    let mut k: usize = 0;
    while k < items.len()
        invariant
            inv_wf(inv@),
            k <= items@.len(),
            qts@.len() == inv@.len(),
            spec_process_items(inv@, items@.take(k as int)) == Ok::<_, RejectReason>(
                with_qtys(inv@, qts@),
            ),
        decreases items@.len() - k,
    {
        let it = items[k];
        let ghost pre = with_qtys(inv@, qts@);
        proof {
            assert(items@.take(k + 1).drop_last() =~= items@.take(k as int));
            assert(items@.take(k + 1).last() == items@[k as int]);
            assert(forall|l: int|
                0 <= l < pre.len() ==> (#[trigger] pre[l]).item_id == inv@[l].item_id);
            assert(inv_wf(pre));
        }
        match find_index(inv, it.item_id) {
            None => {
                proof {
                    assert(!has_item(pre, it.item_id)) by {
                        if has_item(pre, it.item_id) {
                            let w = choose|w: int|
                                0 <= w < pre.len() && pre[w].item_id == it.item_id;
                            assert(inv@[w].item_id == it.item_id);
                        }
                    }
                    assert(spec_process_items(inv@, items@.take(k + 1))
                        == Err::<Seq<InventoryRecord>, RejectReason>(
                        RejectReason::UnknownItem(it.item_id),
                    ));
                    lemma_err_extends(
                        inv@,
                        items@,
                        k + 1,
                        RejectReason::UnknownItem(it.item_id),
                    );
                }
                return Err(RejectReason::UnknownItem(it.item_id));
            }
            Some(idx) => {
                proof {
                    lemma_item_index_of(pre, it.item_id, idx as int);
                }
                if qts[idx] < it.quantity {
                    proof {
                        assert(spec_process_items(inv@, items@.take(k + 1))
                            == Err::<Seq<InventoryRecord>, RejectReason>(
                            RejectReason::InsufficientStock(it.item_id),
                        ));
                        lemma_err_extends(
                            inv@,
                            items@,
                            k + 1,
                            RejectReason::InsufficientStock(it.item_id),
                        );
                    }
                    return Err(RejectReason::InsufficientStock(it.item_id));
                } else {
                    let nq = qts[idx] - it.quantity;
                    qts[idx] = nq;
                    proof {
                        assert(with_qtys(inv@, qts@) =~= deduct_at(pre, idx as int, it.quantity));
                    }
                }
            }
        }
        k += 1;
    }
    proof {
        assert(items@.take(items@.len() as int) =~= items@);
    }
    Ok(qts)
}

/// A fresh copy of a line vector.
fn clone_items(items: &Vec<DispatchItem>) -> (r: Vec<DispatchItem>)
    ensures
        r@ == items@,
{
    let mut r: Vec<DispatchItem> = Vec::new();
    let mut i: usize = 0;
    while i < items.len()
        invariant
            i <= items@.len(),
            r@ == items@.take(i as int),
        decreases items@.len() - i,
    {
        r.push(items[i]);
        proof {
            assert(items@.take(i + 1) =~= items@.take(i as int).push(items@[i as int]));
        }
        i += 1;
    }
    proof {
        assert(items@.take(items@.len() as int) =~= items@);
    }
    r
}

impl Ledger {
    /// The ledger a process starts from: the fixed seed stock, an empty
    /// dispatch log, and identifier 1 up next.
    pub fn new() -> (l: Ledger)
        ensures
            l.wf(),
            is_seed_inventory(l.inventory@),
            l.dispatches@.len() == 0,
            l.next_dispatch_id == 1,
    {
        let mut inventory: Vec<InventoryRecord> = Vec::new();
        inventory.push(
            InventoryRecord {
                item_id: 1,
                item_name: "Widget A".to_owned(),
                quantity: 100,
                warehouse_location: "A1".to_owned(),
            },
        );
        inventory.push(
            InventoryRecord {
                item_id: 2,
                item_name: "Widget B".to_owned(),
                quantity: 200,
                warehouse_location: "B2".to_owned(),
            },
        );
        inventory.push(
            InventoryRecord {
                item_id: 3,
                item_name: "Widget C".to_owned(),
                quantity: 50,
                warehouse_location: "C3".to_owned(),
            },
        );
        Ledger { inventory, dispatches: Vec::new(), next_dispatch_id: 1 }
    }

    /// The record stocked under `item_id`, if any.
    pub fn lookup(&self, item_id: u32) -> (r: Option<&InventoryRecord>)
        requires
            self.wf(),
        ensures
            match r {
                Some(rec) => has_item(self.inventory@, item_id) && rec.item_id == item_id && *rec
                    == self.inventory@[item_index(self.inventory@, item_id)],
                None => !has_item(self.inventory@, item_id),
            },
    {
        match find_index(&self.inventory, item_id) {
            Some(i) => {
                proof {
                    lemma_item_index_of(self.inventory@, item_id, i as int);
                }
                Some(&self.inventory[i])
            }
            None => None,
        }
    }

    /// A read-only snapshot of the inventory. The result is a function of
    /// the ledger state alone, so two reads with no `submit` between them
    /// return identical records.
    pub fn list_inventory(&self) -> (r: &Vec<InventoryRecord>)
        ensures
            r@ == self.inventory@,
    {
        &self.inventory
    }

    /// A read-only snapshot of the dispatch log, in creation order.
    pub fn list_dispatches(&self) -> (r: &Vec<DispatchRecord>)
        ensures
            r@ == self.dispatches@,
    {
        &self.dispatches
    }

    /// The first failure this request would meet right now, if any. `None`
    /// means a `submit` of the same request against this state is accepted.
    pub fn check_request(&self, req: &DispatchRequest) -> (r: Option<RejectReason>)
        requires
            self.wf(),
        ensures
            match r {
                Some(e) => spec_process_items(self.inventory@, req.items@) == Err::<
                    Seq<InventoryRecord>,
                    RejectReason,
                >(e),
                None => spec_process_items(self.inventory@, req.items@) is Ok,
            },
    {
        match evaluate(&self.inventory, &req.items) {
            Ok(_) => None,
            Err(e) => Some(e),
        }
    }

    /// The core algorithm: allocate the next dispatch identifier, evaluate
    /// the request as one atomic step, deduct every line or none, append the
    /// record with its terminal status, and return a copy of it.
    pub fn submit(&mut self, req: DispatchRequest) -> (rec: DispatchRecord)
        requires
            old(self).wf(),
            old(self).dispatches@.len() + 2 <= u32::MAX,
        ensures
            final(self).wf(),
            post_submit(*old(self), *final(self), req.order_id, req.items@),
            record_matches(
                rec,
                old(self).next_dispatch_id,
                req.order_id,
                req.items@,
                outcome_status(old(self).inventory@, req.items@),
            ),
            rec.created_at == final(self).dispatches@.last().created_at,
    {
        let ghost pre = *self;
        let created_at = now_millis();
        let status: DispatchStatus;
        match evaluate(&self.inventory, &req.items) {
            Ok(qts) => {
                let mut j: usize = 0;
                while j < qts.len()
                    invariant
                        j <= qts@.len(),
                        qts@.len() == pre.inventory@.len(),
                        self.inventory@.len() == pre.inventory@.len(),
                        self.dispatches == pre.dispatches,
                        self.next_dispatch_id == pre.next_dispatch_id,
                        forall|l: int|
                            0 <= l < j ==> #[trigger] self.inventory@[l] == set_qty(
                                pre.inventory@[l],
                                qts@[l],
                            ),
                        forall|l: int|
                            j <= l < pre.inventory@.len() ==> #[trigger] self.inventory@[l]
                                == pre.inventory@[l],
                    decreases qts@.len() - j,
                {
                    let nq = qts[j];
                    let r = &mut self.inventory[j];
                    r.quantity = nq;
                    j += 1;
                }
                proof {
                    assert(self.inventory@ =~= with_qtys(pre.inventory@, qts@));
                }
                status = DispatchStatus::Processing;
            }
            Err(_) => {
                status = DispatchStatus::Rejected;
            }
        }
        let id = self.next_dispatch_id;
        let logged = DispatchRecord {
            dispatch_id: id,
            order_id: req.order_id,
            items: clone_items(&req.items),
            status,
            created_at,
        };
        self.dispatches.push(logged);
        self.next_dispatch_id = id + 1;
        proof {
            lemma_outcome_wf(pre.inventory@, req.items@);
        }
        DispatchRecord {
            dispatch_id: id,
            order_id: req.order_id,
            items: req.items,
            status,
            created_at,
        }
    }
}

} // verus!
