//! The adjudication of one turn, from descriptors to result records.

use crate::audit::{consistent, fault_in, Inconsistency};
use crate::batch::{accepted, admitted, Batch};
use crate::engine::{
    adjudicate, convoy_outcome, dislodger_of, hold_outcome, implicit_hold, invalid_outcome,
    move_outcome, outcome_of, retreat_options, retreat_start, standard_geography, submit,
    support_outcome,
};
use crate::order::{one_unit_per_province, order_views, ParsedOrder};
use crate::outcome::Verdict;
use crate::record::{first_of, first_some, OrderFacts, ResultView};
use crate::summary::{
    all_facts, answers, lemma_summary_answers, lemma_units_conserved, summarises, units_ordered,
    units_reported, AdjudicationSummary,
};
use crate::text::texts;
use vstd::prelude::*;

verus! {

/// The outcome of an order from the five answers that are had of what the
/// adjudicator holds for it: the first that is there, asked as the outcome of
/// a move, of a hold, of a support, of a convoy and of an invalid order. What
/// the adjudicator holds is one of the five, so at most one answer is there.
fn verdict_of(
    moved: Option<Verdict>,
    held: Option<Verdict>,
    supported: Option<Verdict>,
    convoyed: Option<Verdict>,
    invalid: Option<Verdict>,
) -> (verdict: Option<Verdict>)
    ensures
        verdict == first_of(
            moved,
            first_of(held, first_of(supported, first_of(convoyed, invalid))),
        ),
{
    first_some(moved, first_some(held, first_some(supported, first_some(convoyed, invalid))))
}

/// Has the orders adjudicated on the given board and collects what the
/// adjudicator says of each: `facts[k]` is said of `orders[k]`.
///
/// The orders, which are given to units in different provinces, are handed
/// over as they are and in the order given. Of each the
/// adjudicator is asked its outcome, who dislodged its unit, and where that
/// unit may retreat to; who dislodged the unit is asked of the order itself
/// and of the hold that stands in for an order found invalid.
pub(crate) fn gather_facts(map: &diplomacy::geo::Map, orders: &Vec<ParsedOrder>) -> (facts: Vec<
    OrderFacts,
>)
    requires
        one_unit_per_province(order_views(orders@)),
    ensures
        facts@.len() == orders@.len(),
{
    let submission = submit(map, orders);
    let outcome = adjudicate(&submission);
    let retreat = retreat_start(&outcome);
    let mut facts: Vec<OrderFacts> = Vec::new();
    let mut k: usize = 0;
    while k < orders.len()
        invariant
            k <= orders@.len(),
            facts@.len() == k,
        decreases orders@.len() - k,
    {
        let order = &orders[k].handle;
        let verdict = match outcome_of(&outcome, order) {
            Some(held) => verdict_of(
                move_outcome(held),
                hold_outcome(held),
                support_outcome(held),
                convoy_outcome(held),
                invalid_outcome(held),
            ),
            None => None,
        };
        facts.push(
            OrderFacts::collect(
                verdict,
                dislodger_of(&retreat, order),
                dislodger_of(&retreat, &implicit_hold(order)),
                retreat_options(&retreat, order),
            ),
        );
        k = k + 1;
    }
    facts
}

/// Whether the fault was found in a summary of the list of descriptors.
pub open spec fn found_in_summary(
    list: Seq<Seq<char>>,
    records: Seq<ResultView>,
    fault: Inconsistency,
) -> bool {
    summarises(list, records) && fault_in(records, fault)
}

/// Adjudicates one movement turn on the standard board.
///
/// `order_list` holds one descriptor for each unit that is given an order. The
/// summary holds one record for each descriptor, in the same order. A
/// descriptor that cannot be read, or whose unit stands in a province where
/// an earlier descriptor has placed one, gets the record of a rejected
/// descriptor and takes no part in the adjudication; every other gets the
/// record of its order, made from what the adjudicator says of it. Which
/// orders succeed is decided by the adjudicator alone: the contract says what
/// holds of the summary whatever it decides.
///
/// The summary is audited before it is returned. Where the audit finds a
/// fault, the adjudication is at fault and not an order: the turn has no
/// summary, and the fault is returned in its place.
pub fn adjudicate_with_input(order_list: Vec<String>) -> (turn: Result<
    AdjudicationSummary,
    Inconsistency,
>)
    ensures
        turn matches Ok(summary) ==> {
            &&& summarises(texts(order_list@), summary@)
            &&& units_reported(summary@) == units_ordered(accepted(texts(order_list@)))
            &&& consistent(summary@)
        },
        turn matches Err(fault) ==> exists|records: Seq<ResultView>| #[trigger]
            found_in_summary(texts(order_list@), records, fault),
{
    let batch = Batch::read(&order_list);
    let facts = gather_facts(standard_geography(), &batch.orders);
    let summary = AdjudicationSummary::assemble(&batch, &facts);
    proof {
        let list = texts(order_list@);
        assert forall|i: int| 0 <= i < list.len() implies answers(list, i, #[trigger] summary@[i])
            && summary@[i].well_formed() && (summary@[i].explanation is Rejected) == (admitted(
            list[i],
            accepted(list.take(i)),
        ) is None) by {
            lemma_summary_answers(list, batch@, all_facts(facts@), i);
        }
        lemma_units_conserved(list, batch@, all_facts(facts@));
        assert(summarises(list, summary@));
    }
    match summary.audit() {
        Ok(()) => Ok(summary),
        Err(fault) => {
            assert(found_in_summary(texts(order_list@), summary@, fault));
            Err(fault)
        },
    }
}

} // verus!
