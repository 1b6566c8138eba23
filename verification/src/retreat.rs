//! The retreat phase: where the dislodged units of a turn end up.
//!
//! A dislodged unit retreats to the region it is ordered to only if that region
//! is one of its retreat options and no other dislodged unit retreats to the
//! same province. Every other dislodged unit is disbanded. All retreat orders
//! are known before any is settled.

use crate::record::{optional_unit, ResultView, UnitResult};
use crate::region::{province, same_province};
use crate::summary::AdjudicationSummary;
use crate::text::{holds_text, optional_text};
use crate::unit::{UnitId, UnitView};
use vstd::prelude::*;

verus! {

/// A retreat order as plain values.
pub struct RetreatOrderView {
    pub unit: UnitView,
    pub destination: Seq<char>,
}

/// An order to a dislodged unit to retreat to a region.
#[derive(Debug)]
pub struct RetreatOrder {
    pub unit: UnitId,
    pub destination: String,
}

impl View for RetreatOrder {
    type V = RetreatOrderView;

    open spec fn view(&self) -> RetreatOrderView {
        RetreatOrderView { unit: self.unit@, destination: self.destination@ }
    }
}

/// A list of retreat orders as plain values.
pub open spec fn all_orders(orders: Seq<RetreatOrder>) -> Seq<RetreatOrderView> {
    Seq::new(orders.len(), |k: int| orders[k]@)
}

/// What became of a dislodged unit, as plain values.
pub struct RetreatView {
    pub unit: UnitView,
    pub from: Seq<char>,
    pub attempted: Option<Seq<char>>,
    pub succeeded: bool,
    pub final_position: Option<Seq<char>>,
}

/// What became of a dislodged unit in the retreat phase.
#[derive(Debug)]
pub struct RetreatResult {
    /// The dislodged unit.
    pub unit: UnitId,
    /// The region it was dislodged from.
    pub from: String,
    /// The region it was ordered to retreat to; `None` where it was given no order.
    pub attempted: Option<String>,
    /// Whether the retreat succeeded.
    pub succeeded: bool,
    /// The region it retreated to; `None` where it was disbanded.
    pub final_position: Option<String>,
}

impl View for RetreatResult {
    type V = RetreatView;

    open spec fn view(&self) -> RetreatView {
        RetreatView {
            unit: self.unit@,
            from: self.from@,
            attempted: optional_text(self.attempted),
            succeeded: self.succeeded,
            final_position: optional_text(self.final_position),
        }
    }
}

/// A list of retreat results as plain values.
pub open spec fn all_results(results: Seq<RetreatResult>) -> Seq<RetreatView> {
    Seq::new(results.len(), |k: int| results[k]@)
}

/// Whether the record is that of a dislodged unit.
pub open spec fn is_dislodged(record: ResultView) -> bool {
    record.unit is Some && record.dislodged_by is Some
}

/// Where the unit is ordered to retreat to: the destination of the first
/// order given to it, `None` where it is given none.
pub open spec fn attempt_of(unit: UnitView, orders: Seq<RetreatOrderView>) -> Option<Seq<char>>
    decreases orders.len(),
{
    if orders.len() == 0 {
        None
    } else if orders.first().unit == unit {
        Some(orders.first().destination)
    } else {
        attempt_of(unit, orders.drop_first())
    }
}

/// The region that the record's unit lays claim to: the region it is ordered to
/// retreat to, where it is dislodged and the region is one of its retreat options.
pub open spec fn claim_of(record: ResultView, orders: Seq<RetreatOrderView>) -> Option<Seq<char>> {
    if is_dislodged(record) {
        match attempt_of(record.unit->0, orders) {
            Some(region) if record.retreat_options.contains(region) => Some(region),
            _ => None,
        }
    } else {
        None
    }
}

/// Whether two claims are for the same province.
pub open spec fn claims_meet(a: Option<Seq<char>>, b: Option<Seq<char>>) -> bool {
    a is Some && b is Some && province(a->0) == province(b->0)
}

/// Whether `records[j]` is a rival of `records[i]`: the record of another unit
/// that lays claim to a region of the same province.
pub open spec fn rivals(records: Seq<ResultView>, orders: Seq<RetreatOrderView>, i: int, j: int)
    -> bool {
    &&& 0 <= j < records.len()
    &&& records[j].unit != records[i].unit
    &&& claims_meet(claim_of(records[i], orders), claim_of(records[j], orders))
}

/// Whether another unit lays claim to the province that the unit of `records[i]` claims.
pub open spec fn contested(records: Seq<ResultView>, orders: Seq<RetreatOrderView>, i: int)
    -> bool {
    exists|j: int| rivals(records, orders, i, j)
}

/// What becomes of the dislodged unit of `records[i]`: it retreats to the
/// region it claims if no other unit claims a region of that province, and is
/// disbanded otherwise.
pub open spec fn retreat_of(records: Seq<ResultView>, orders: Seq<RetreatOrderView>, i: int)
    -> RetreatView {
    let unit = records[i].unit->0;
    let claim = claim_of(records[i], orders);
    let succeeded = claim is Some && !contested(records, orders, i);
    RetreatView {
        unit,
        from: unit.region,
        attempted: attempt_of(unit, orders),
        succeeded,
        final_position: if succeeded {
            claim
        } else {
            None
        },
    }
}

/// What becomes of the dislodged units among the first `n` records, in the
/// order of the records.
pub open spec fn retreats_among(
    records: Seq<ResultView>,
    orders: Seq<RetreatOrderView>,
    n: int,
) -> Seq<RetreatView>
    decreases n,
{
    if n <= 0 {
        Seq::empty()
    } else {
        let before = retreats_among(records, orders, n - 1);
        if is_dislodged(records[n - 1]) {
            before.push(retreat_of(records, orders, n - 1))
        } else {
            before
        }
    }
}

/// What becomes of the dislodged units of a turn, in the order of its records.
pub open spec fn retreats_of(records: Seq<ResultView>, orders: Seq<RetreatOrderView>) -> Seq<
    RetreatView,
> {
    retreats_among(records, orders, records.len() as int)
}

/// The destination of the first order given to the unit.
fn find_attempt(unit: &UnitId, orders: &Vec<RetreatOrder>) -> (attempt: Option<String>)
    ensures
        optional_text(attempt) == attempt_of(unit@, all_orders(orders@)),
{
    let ghost list = all_orders(orders@);
    let mut k: usize = 0;
    proof {
        assert(list.skip(0) =~= list);
    }
    while k < orders.len()
        invariant
            k <= orders@.len(),
            list == all_orders(orders@),
            attempt_of(unit@, list) == attempt_of(unit@, list.skip(k as int)),
        decreases orders@.len() - k,
    {
        proof {
            assert(list.skip(k as int).first() == orders@[k as int]@);
            assert(list.skip(k as int).drop_first() =~= list.skip(k + 1));
        }
        if orders[k].unit.same_as(unit) {
            return Some(orders[k].destination.clone());
        }
        k = k + 1;
    }
    None
}

/// The region that the record's unit lays claim to.
fn find_claim(record: &UnitResult, orders: &Vec<RetreatOrder>) -> (claim: Option<String>)
    ensures
        optional_text(claim) == claim_of(record@, all_orders(orders@)),
{
    match (&record.unit, &record.dislodged_by) {
        (Some(unit), Some(_)) => {
            match find_attempt(unit, orders) {
                Some(region) => {
                    if holds_text(&record.retreat_options, region.as_str()) {
                        Some(region)
                    } else {
                        None
                    }
                },
                None => None,
            }
        },
        _ => None,
    }
}

/// Whether another unit lays claim to the province that the unit of record `i` claims.
fn is_contested(
    summary: &AdjudicationSummary,
    orders: &Vec<RetreatOrder>,
    claims: &Vec<Option<String>>,
    i: usize,
) -> (found: bool)
    requires
        i < summary.unit_results@.len(),
        claims@.len() == summary.unit_results@.len(),
        forall|k: int|
            0 <= k < claims@.len() ==> optional_text(#[trigger] claims@[k]) == claim_of(
                summary@[k],
                all_orders(orders@),
            ),
        claims@[i as int] is Some,
    ensures
        found == contested(summary@, all_orders(orders@), i as int),
{
    let ghost records = summary@;
    let ghost list = all_orders(orders@);
    let mut j: usize = 0;
    while j < claims.len()
        invariant
            j <= claims@.len(),
            i < claims@.len(),
            records == summary@,
            list == all_orders(orders@),
            claims@.len() == summary.unit_results@.len(),
            forall|k: int|
                0 <= k < claims@.len() ==> optional_text(#[trigger] claims@[k]) == claim_of(
                    records[k],
                    list,
                ),
            claims@[i as int] is Some,
            forall|k: int| 0 <= k < j ==> !rivals(records, list, i as int, k),
        decreases claims@.len() - j,
    {
        assert(records[j as int] == summary.unit_results@[j as int]@);
        assert(records[i as int] == summary.unit_results@[i as int]@);
        let rival = match (&claims[j], &claims[i]) {
            (Some(theirs), Some(ours)) => same_province(theirs.as_str(), ours.as_str())
                && !same_optional_unit(
                &summary.unit_results[j].unit,
                &summary.unit_results[i].unit,
            ),
            _ => false,
        };
        if rival {
            assert(rivals(records, list, i as int, j as int));
            return true;
        }
        j = j + 1;
    }
    false
}

/// Whether two optional units are the same.
fn same_optional_unit(a: &Option<UnitId>, b: &Option<UnitId>) -> (same: bool)
    ensures
        same == (optional_unit(*a) == optional_unit(*b)),
{
    match (a, b) {
        (Some(a), Some(b)) => a.same_as(b),
        (None, None) => true,
        _ => false,
    }
}

/// Settles the retreats of a turn.
///
/// `summary` is the summary of the turn and `orders` holds the retreat orders,
/// of which the first given to a unit counts. The result holds one entry for
/// each dislodged unit of the summary, in the order of its records.
pub fn resolve_retreats(summary: &AdjudicationSummary, orders: &Vec<RetreatOrder>) -> (results:
    Vec<RetreatResult>)
    ensures
        all_results(results@) == retreats_of(summary@, all_orders(orders@)),
{
    let ghost records = summary@;
    let ghost list = all_orders(orders@);
    let mut claims: Vec<Option<String>> = Vec::new();
    let mut j: usize = 0;
    while j < summary.unit_results.len()
        invariant
            j <= summary.unit_results@.len(),
            records == summary@,
            list == all_orders(orders@),
            claims@.len() == j,
            forall|k: int|
                0 <= k < j ==> optional_text(#[trigger] claims@[k]) == claim_of(records[k], list),
        decreases summary.unit_results@.len() - j,
    {
        claims.push(find_claim(&summary.unit_results[j], orders));
        j = j + 1;
    }
    let mut results: Vec<RetreatResult> = Vec::new();
    let mut i: usize = 0;
    while i < summary.unit_results.len()
        invariant
            i <= summary.unit_results@.len(),
            records == summary@,
            list == all_orders(orders@),
            claims@.len() == records.len(),
            forall|k: int|
                0 <= k < claims@.len() ==> optional_text(#[trigger] claims@[k]) == claim_of(
                    records[k],
                    list,
                ),
            all_results(results@) == retreats_among(records, list, i as int),
        decreases summary.unit_results@.len() - i,
    {
        let record = &summary.unit_results[i];
        assert(records[i as int] == record@);
        match (&record.unit, &record.dislodged_by) {
            (Some(unit), Some(_)) => {
                let final_position = match &claims[i] {
                    Some(region) => {
                        if is_contested(summary, orders, &claims, i) {
                            None
                        } else {
                            Some(region.clone())
                        }
                    },
                    None => None,
                };
                let result = RetreatResult {
                    unit: unit.duplicate(),
                    from: unit.region.clone(),
                    attempted: find_attempt(unit, orders),
                    succeeded: final_position.is_some(),
                    final_position,
                };
                assert(result@ == retreat_of(records, list, i as int));
                let ghost before = all_results(results@);
                results.push(result);
                assert(all_results(results@) =~= before.push(retreat_of(records, list, i as int)));
            },
            _ => {},
        }
        i = i + 1;
    }
    results
}

/// Where the units of two records lay claim to the same region, or to two
/// regions of one province, neither retreat succeeds and both units are disbanded.
pub proof fn lemma_rivals_are_disbanded(
    records: Seq<ResultView>,
    orders: Seq<RetreatOrderView>,
    i: int,
    j: int,
)
    requires
        0 <= i < records.len(),
        0 <= j < records.len(),
        records[i].unit != records[j].unit,
        claims_meet(claim_of(records[i], orders), claim_of(records[j], orders)),
    ensures
        !retreat_of(records, orders, i).succeeded,
        !retreat_of(records, orders, j).succeeded,
        retreat_of(records, orders, i).final_position is None,
        retreat_of(records, orders, j).final_position is None,
{
    assert(rivals(records, orders, i, j));
    assert(rivals(records, orders, j, i));
}

/// Mutual bounce: where two dislodged units are both ordered to retreat to
/// the same region, which is a retreat option of each, neither retreat
/// succeeds and both units are disbanded.
pub proof fn lemma_mutual_bounce(
    records: Seq<ResultView>,
    orders: Seq<RetreatOrderView>,
    i: int,
    j: int,
    region: Seq<char>,
)
    requires
        0 <= i < records.len(),
        0 <= j < records.len(),
        is_dislodged(records[i]),
        is_dislodged(records[j]),
        records[i].unit != records[j].unit,
        attempt_of(records[i].unit->0, orders) == Some(region),
        attempt_of(records[j].unit->0, orders) == Some(region),
        records[i].retreat_options.contains(region),
        records[j].retreat_options.contains(region),
    ensures
        !retreat_of(records, orders, i).succeeded,
        !retreat_of(records, orders, j).succeeded,
        retreat_of(records, orders, i).final_position is None,
        retreat_of(records, orders, j).final_position is None,
{
    lemma_rivals_are_disbanded(records, orders, i, j);
}

/// No two units retreat to the same province, and so none to the same region.
pub proof fn lemma_retreats_never_meet(
    records: Seq<ResultView>,
    orders: Seq<RetreatOrderView>,
    i: int,
    j: int,
)
    requires
        0 <= i < records.len(),
        0 <= j < records.len(),
        records[i].unit != records[j].unit,
        retreat_of(records, orders, i).succeeded,
        retreat_of(records, orders, j).succeeded,
    ensures
        !claims_meet(
            retreat_of(records, orders, i).final_position,
            retreat_of(records, orders, j).final_position,
        ),
        retreat_of(records, orders, i).final_position != retreat_of(
            records,
            orders,
            j,
        ).final_position,
{
    if claims_meet(claim_of(records[i], orders), claim_of(records[j], orders)) {
        lemma_rivals_are_disbanded(records, orders, i, j);
    }
}

/// A retreat succeeds only to the region that was ordered, and only if that
/// region is one of the unit's retreat options; a unit with no order or with
/// no retreat option is disbanded.
pub proof fn lemma_retreat_is_legal(records: Seq<ResultView>, orders: Seq<RetreatOrderView>, i: int)
    requires
        0 <= i < records.len(),
        is_dislodged(records[i]),
    ensures
        ({
            let retreat = retreat_of(records, orders, i);
            &&& retreat.succeeded == (retreat.final_position is Some)
            &&& retreat.succeeded ==> retreat.final_position == retreat.attempted
                && records[i].retreat_options.contains(retreat.final_position->0)
            &&& retreat.attempted is None ==> !retreat.succeeded
            &&& records[i].retreat_options.len() == 0 ==> !retreat.succeeded
        }),
{
}

/// How many of the first `n` records are those of dislodged units.
pub open spec fn dislodged_among(records: Seq<ResultView>, n: int) -> nat
    decreases n,
{
    if n <= 0 {
        0
    } else {
        dislodged_among(records, n - 1) + if is_dislodged(records[n - 1]) {
            1nat
        } else {
            0nat
        }
    }
}

/// Every dislodged unit is settled once: the retreats hold one entry for each
/// record of a dislodged unit and no other, and the entry of `records[i]` stands
/// at the place that `records[i]` has among the records of dislodged units.
pub proof fn lemma_every_dislodged_unit_settled(
    records: Seq<ResultView>,
    orders: Seq<RetreatOrderView>,
    i: int,
)
    requires
        0 <= i < records.len(),
        is_dislodged(records[i]),
    ensures
        retreats_of(records, orders).len() == dislodged_among(records, records.len() as int),
        dislodged_among(records, i) < retreats_of(records, orders).len(),
        retreats_of(records, orders)[dislodged_among(records, i) as int] == retreat_of(
            records,
            orders,
            i,
        ),
        retreat_of(records, orders, i).unit == records[i].unit->0,
{
    lemma_settled_among(records, orders, i, records.len() as int);
}

proof fn lemma_settled_among(
    records: Seq<ResultView>,
    orders: Seq<RetreatOrderView>,
    i: int,
    n: int,
)
    requires
        0 <= i < n <= records.len(),
        is_dislodged(records[i]),
    ensures
        retreats_among(records, orders, n).len() == dislodged_among(records, n),
        dislodged_among(records, i) < retreats_among(records, orders, n).len(),
        retreats_among(records, orders, n)[dislodged_among(records, i) as int] == retreat_of(
            records,
            orders,
            i,
        ),
    decreases n,
{
    lemma_count_among(records, orders, n - 1);
    if i < n - 1 {
        lemma_settled_among(records, orders, i, n - 1);
    }
}

proof fn lemma_count_among(records: Seq<ResultView>, orders: Seq<RetreatOrderView>, n: int)
    requires
        0 <= n <= records.len(),
    ensures
        retreats_among(records, orders, n).len() == dislodged_among(records, n),
    decreases n,
{
    if n > 0 {
        lemma_count_among(records, orders, n - 1);
    }
}

} // verus!
