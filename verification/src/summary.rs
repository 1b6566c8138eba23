//! The summary of a turn: one result record for each descriptor, in the order given.

use crate::batch::{
    accepted, admitted, read_from, reads_as, rejection_fits, Batch, BatchView, Slot, SlotView,
};
use crate::order::OrderView;
use crate::outcome::OrderError;
use crate::record::{
    adjudicated_record, lemma_adjudicated_record_well_formed, lemma_rejected_record_well_formed,
    rejected_record, FactsView, OrderFacts, ResultView, UnitResult,
};
use crate::unit::UnitView;
use vstd::prelude::*;

verus! {

/// A list of facts as plain values.
pub open spec fn all_facts(facts: Seq<OrderFacts>) -> Seq<FactsView> {
    Seq::new(facts.len(), |k: int| facts[k]@)
}

/// The facts held of the order at `index`; of an order beyond the end of the
/// list nothing is held.
pub open spec fn facts_at(facts: Seq<FactsView>, index: int) -> FactsView {
    if 0 <= index < facts.len() {
        facts[index]
    } else {
        FactsView::absent()
    }
}

/// The record of the descriptor in slot `i`.
pub open spec fn record_at(batch: BatchView, facts: Seq<FactsView>, i: int) -> ResultView {
    match batch.slots[i] {
        SlotView::Accepted { index } => adjudicated_record(
            batch.orders[index],
            facts_at(facts, index),
        ),
        SlotView::Rejected { text, error } => rejected_record(text, error),
    }
}

/// The summary of a batch, given the facts that the adjudication holds of its
/// orders: one record for each slot, in the order of the slots.
pub open spec fn summary_of(batch: BatchView, facts: Seq<FactsView>) -> Seq<ResultView> {
    Seq::new(batch.slots.len(), |i: int| record_at(batch, facts, i))
}

/// The results of one turn.
#[derive(Debug)]
pub struct AdjudicationSummary {
    pub unit_results: Vec<UnitResult>,
}

impl View for AdjudicationSummary {
    type V = Seq<ResultView>;

    open spec fn view(&self) -> Seq<ResultView> {
        Seq::new(self.unit_results@.len(), |i: int| self.unit_results@[i]@)
    }
}

impl AdjudicationSummary {
    /// Puts the summary of a batch together from the facts that the
    /// adjudication holds of its orders, `facts[k]` being those of `batch.orders[k]`.
    pub fn assemble(batch: &Batch, facts: &Vec<OrderFacts>) -> (summary: AdjudicationSummary)
        requires
            batch@.well_formed(),
        ensures
            summary@ == summary_of(batch@, all_facts(facts@)),
    {
        let mut unit_results: Vec<UnitResult> = Vec::new();
        let mut i: usize = 0;
        while i < batch.slots.len()
            invariant
                i <= batch.slots@.len(),
                batch@.well_formed(),
                unit_results@.len() == i,
                forall|j: int|
                    0 <= j < i ==> (#[trigger] unit_results@[j])@ == record_at(
                        batch@,
                        all_facts(facts@),
                        j,
                    ),
            decreases batch.slots@.len() - i,
        {
            assert(batch@.slots[i as int] == batch.slots@[i as int]@);
            let record = match &batch.slots[i] {
                Slot::Accepted { index } => {
                    let index = *index;
                    assert(batch@.orders[index as int] == batch.orders@[index as int]@);
                    if index < facts.len() {
                        UnitResult::adjudicated(&batch.orders[index], &facts[index])
                    } else {
                        UnitResult::adjudicated(&batch.orders[index], &OrderFacts::absent())
                    }
                },
                Slot::Rejected { text, error } => UnitResult::rejected(text.as_str(), *error),
            };
            unit_results.push(record);
            i = i + 1;
        }
        let summary = AdjudicationSummary { unit_results };
        assert(summary@ =~= summary_of(batch@, all_facts(facts@)));
        summary
    }
}

/// Whether `record` answers the descriptor at `i` of the list: for a
/// descriptor that adds an order to those read before it, it is the record of
/// that order under some facts; for any other, the record of a rejected
/// descriptor, with the error that fits.
pub open spec fn answers(list: Seq<Seq<char>>, i: int, record: ResultView) -> bool {
    match admitted(list[i], accepted(list.take(i))) {
        Some(order) => exists|facts: FactsView| record == #[trigger] adjudicated_record(order, facts),
        None => exists|error: OrderError|
            record == #[trigger] rejected_record(list[i], error) && rejection_fits(list[i], error),
    }
}

/// Whether the records are a summary of the list of descriptors: one record
/// for each descriptor, in the order given, each well-formed and the answer
/// to its descriptor, and that of a rejected descriptor exactly where the
/// descriptor adds no order.
pub open spec fn summarises(list: Seq<Seq<char>>, records: Seq<ResultView>) -> bool {
    &&& records.len() == list.len()
    &&& forall|i: int|
        0 <= i < list.len() ==> {
            &&& answers(list, i, #[trigger] records[i])
            &&& records[i].well_formed()
            &&& (records[i].explanation is Rejected) == (admitted(
                list[i],
                accepted(list.take(i)),
            ) is None)
        }
}

/// The units of the records that have one, in the order of the records.
pub open spec fn units_reported(records: Seq<ResultView>) -> Seq<UnitView>
    decreases records.len(),
{
    if records.len() == 0 {
        Seq::empty()
    } else {
        let before = units_reported(records.drop_last());
        match records.last().unit {
            Some(unit) => before.push(unit),
            None => before,
        }
    }
}

/// The units of a list of orders.
pub open spec fn units_ordered(orders: Seq<OrderView>) -> Seq<UnitView> {
    Seq::new(orders.len(), |k: int| orders[k].unit)
}

/// In the summary of a batch that was read from a list of descriptors, every
/// record answers its descriptor and is well-formed, whatever facts the
/// adjudication gave; and a record is that of a rejected descriptor exactly
/// where the descriptor adds no order. So a descriptor that is rejected
/// costs the others nothing: the record of each of them is that of its order.
pub proof fn lemma_summary_answers(
    list: Seq<Seq<char>>,
    batch: BatchView,
    facts: Seq<FactsView>,
    i: int,
)
    requires
        batch.well_formed(),
        read_from(list, batch),
        0 <= i < list.len(),
    ensures
        summary_of(batch, facts).len() == list.len(),
        answers(list, i, summary_of(batch, facts)[i]),
        summary_of(batch, facts)[i].well_formed(),
        (summary_of(batch, facts)[i].explanation is Rejected) == (admitted(
            list[i],
            accepted(list.take(i)),
        ) is None),
        admitted(list[i], accepted(list.take(i))) matches Some(order) ==> summary_of(
            batch,
            facts,
        )[i].unit == Some(order.unit) && summary_of(batch, facts)[i].order == order.text,
{
    let record = summary_of(batch, facts)[i];
    let slot = batch.slots[i];
    assert(reads_as(list[i], list.take(i), slot));
    match admitted(list[i], accepted(list.take(i))) {
        Some(order) => {
            crate::batch::lemma_accepted_order(list, i);
            let index = accepted(list.take(i)).len() as int;
            assert(record == adjudicated_record(order, facts_at(facts, index)));
            lemma_adjudicated_record_well_formed(order, facts_at(facts, index));
        },
        None => {
            assert(record == rejected_record(list[i], slot->error));
            lemma_rejected_record_well_formed(list[i], slot->error);
        },
    }
}

/// No unit is made up, lost or reported twice: the units of the records of a
/// summary are the units of the orders that were read, one for one and in the
/// same order, whatever facts the adjudication gave.
pub proof fn lemma_units_conserved(list: Seq<Seq<char>>, batch: BatchView, facts: Seq<FactsView>)
    requires
        batch.well_formed(),
        read_from(list, batch),
    ensures
        units_reported(summary_of(batch, facts)) == units_ordered(accepted(list)),
{
    let summary = summary_of(batch, facts);
    lemma_units_of_prefix(list, batch, facts, list.len() as int);
    assert(summary.take(list.len() as int) =~= summary);
    assert(list.take(list.len() as int) =~= list);
}

/// The units reported in the first `n` records are those of the orders read
/// from the first `n` descriptors.
proof fn lemma_units_of_prefix(
    list: Seq<Seq<char>>,
    batch: BatchView,
    facts: Seq<FactsView>,
    n: int,
)
    requires
        batch.well_formed(),
        read_from(list, batch),
        0 <= n <= list.len(),
    ensures
        units_reported(summary_of(batch, facts).take(n)) == units_ordered(accepted(list.take(n))),
    decreases n,
{
    let summary = summary_of(batch, facts);
    if n == 0 {
        assert(summary.take(0) =~= Seq::empty());
        assert(list.take(0) =~= Seq::empty());
        assert(units_ordered(accepted(list.take(0))) =~= Seq::empty());
    } else {
        lemma_units_of_prefix(list, batch, facts, n - 1);
        lemma_summary_answers(list, batch, facts, n - 1);
        assert(summary.take(n).drop_last() =~= summary.take(n - 1));
        assert(list.take(n).drop_last() =~= list.take(n - 1));
        assert(summary.take(n).last() == summary[n - 1]);
        assert(list.take(n).last() == list[n - 1]);
        assert(units_reported(summary.take(n)) =~= units_ordered(accepted(list.take(n))));
    }
}

} // verus!
