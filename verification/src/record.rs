//! Result records: what is reported of each order descriptor.

use crate::order::{OrderView, ParsedOrder};
use crate::outcome::{Explanation, FailureReason, OrderError, Verdict};
use crate::text::{copy_optional_text, copy_texts, optional_text, texts};
use crate::unit::{UnitId, UnitView};
use vstd::prelude::*;

verus! {

/// An optional unit as plain values.
pub open spec fn optional_unit(unit: Option<UnitId>) -> Option<UnitView> {
    match unit {
        Some(unit) => Some(unit@),
        None => None,
    }
}

/// What the adjudication says of one order, as plain values.
pub struct FactsView {
    pub outcome: Option<Verdict>,
    pub dislodged_by: Option<UnitView>,
    pub retreat_options: Seq<Seq<char>>,
}

impl FactsView {
    /// What is held of an order of which the adjudication says nothing.
    pub open spec fn absent() -> FactsView {
        FactsView { outcome: None, dislodged_by: None, retreat_options: Seq::empty() }
    }
}

/// What the adjudication says of one order.
#[derive(Debug)]
pub struct OrderFacts {
    /// The outcome of the order; `None` where the adjudication holds none.
    pub outcome: Option<Verdict>,
    /// The unit whose move took the region of the order's unit.
    pub dislodged_by: Option<UnitId>,
    /// The regions that the order's unit may retreat to.
    pub retreat_options: Vec<String>,
}

impl View for OrderFacts {
    type V = FactsView;

    open spec fn view(&self) -> FactsView {
        FactsView {
            outcome: self.outcome,
            dislodged_by: optional_unit(self.dislodged_by),
            retreat_options: texts(self.retreat_options@),
        }
    }
}

/// The first of two optional values that is there.
pub open spec fn first_of<T>(first: Option<T>, second: Option<T>) -> Option<T> {
    if first is Some {
        first
    } else {
        second
    }
}

/// The first of two optional values that is there.
pub fn first_some<T>(first: Option<T>, second: Option<T>) -> (found: Option<T>)
    ensures
        found == first_of(first, second),
{
    match first {
        Some(value) => Some(value),
        None => second,
    }
}

impl OrderFacts {
    /// The facts of an order from what the adjudicator was asked of it.
    ///
    /// `dislodged_by` is what it says of the order as it was given, and
    /// `dislodged_holding` what it says of the hold that it puts in the place of
    /// an order it finds invalid: a unit is dislodged if either says so. Where
    /// it lists no retreat options, there are none.
    pub fn collect(
        outcome: Option<Verdict>,
        dislodged_by: Option<UnitId>,
        dislodged_holding: Option<UnitId>,
        retreat_options: Option<Vec<String>>,
    ) -> (facts: OrderFacts)
        ensures
            facts@ == (FactsView {
                outcome,
                dislodged_by: first_of(
                    optional_unit(dislodged_by),
                    optional_unit(dislodged_holding),
                ),
                retreat_options: match retreat_options {
                    Some(options) => texts(options@),
                    None => Seq::empty(),
                },
            }),
    {
        let facts = OrderFacts {
            outcome,
            dislodged_by: first_some(dislodged_by, dislodged_holding),
            retreat_options: match retreat_options {
                Some(options) => options,
                None => Vec::new(),
            },
        };
        assert(retreat_options is None ==> facts@.retreat_options =~= Seq::empty());
        facts
    }

    /// What is held of an order of which the adjudication says nothing.
    pub fn absent() -> (facts: OrderFacts)
        ensures
            facts@ == FactsView::absent(),
    {
        let facts = OrderFacts { outcome: None, dislodged_by: None, retreat_options: Vec::new() };
        assert(facts@.retreat_options =~= Seq::empty());
        facts
    }
}

/// A result record as plain values.
pub struct ResultView {
    pub unit: Option<UnitView>,
    pub order: Seq<char>,
    pub succeeded: bool,
    pub new_position: Option<Seq<char>>,
    pub dislodged_by: Option<UnitView>,
    pub retreat_options: Seq<Seq<char>>,
    pub explanation: Explanation,
}

/// Whether the order's unit leaves its region: the order is a move and succeeds.
pub open spec fn moves(order: OrderView, facts: FactsView) -> bool {
    facts.outcome == Some(Verdict::Succeeds) && order.destination is Some
}

/// The unit that dislodged the order's unit. A unit that moves away is not dislodged.
pub open spec fn dislodger(order: OrderView, facts: FactsView) -> Option<UnitView> {
    if moves(order, facts) {
        None
    } else {
        facts.dislodged_by
    }
}

/// Where the order's unit may retreat to. Only a dislodged unit retreats.
pub open spec fn retreats(order: OrderView, facts: FactsView) -> Seq<Seq<char>> {
    if dislodger(order, facts) is Some {
        facts.retreat_options
    } else {
        Seq::empty()
    }
}

/// Where the order's unit stands after the turn: at its destination if it
/// moves; nowhere if it is dislodged with no region to retreat to; else where
/// it stood.
pub open spec fn position(order: OrderView, facts: FactsView) -> Option<Seq<char>> {
    if moves(order, facts) {
        order.destination
    } else if dislodger(order, facts) is Some && facts.retreat_options.len() == 0 {
        None
    } else {
        Some(order.unit.region)
    }
}

/// The record of an order that was adjudicated.
pub open spec fn adjudicated_record(order: OrderView, facts: FactsView) -> ResultView {
    ResultView {
        unit: Some(order.unit),
        order: order.text,
        succeeded: facts.outcome == Some(Verdict::Succeeds),
        new_position: position(order, facts),
        dislodged_by: dislodger(order, facts),
        retreat_options: retreats(order, facts),
        explanation: Explanation::of_outcome(facts.outcome),
    }
}

/// The record of a descriptor that was rejected.
pub open spec fn rejected_record(text: Seq<char>, error: OrderError) -> ResultView {
    ResultView {
        unit: None,
        order: text,
        succeeded: false,
        new_position: None,
        dislodged_by: None,
        retreat_options: Seq::empty(),
        explanation: Explanation::Rejected(error),
    }
}

impl ResultView {
    /// What holds of every record that the library makes.
    pub open spec fn well_formed(self) -> bool {
        &&& self.succeeded == self.explanation.succeeded()
        &&& (self.explanation is Rejected) == (self.unit is None)
        &&& self.unit is None ==> self.dislodged_by is None
        &&& self.unit is None ==> self.new_position is None
        &&& self.retreat_options.len() > 0 ==> self.dislodged_by is Some
        &&& self.unit is Some ==> (self.new_position is None) == (self.dislodged_by is Some
            && self.retreat_options.len() == 0)
        &&& self.dislodged_by is Some && self.new_position is Some ==> self.new_position == Some(
            self.unit->0.region,
        )
    }
}

/// Every record of an adjudicated order is well-formed, whatever the
/// adjudication said of the order.
pub proof fn lemma_adjudicated_record_well_formed(order: OrderView, facts: FactsView)
    ensures
        adjudicated_record(order, facts).well_formed(),
        !(adjudicated_record(order, facts).explanation is Rejected),
{
}

/// A unit whose order fails and which is not dislodged stays where it stood:
/// its record reads no success, its own region, no dislodger and no retreat
/// option. So after two moves that bounce off each other both units stand
/// where they stood, and neither stands where they meant to go.
pub proof fn lemma_failed_order_stays(order: OrderView, facts: FactsView, reason: FailureReason)
    requires
        facts.outcome == Some(Verdict::Fails(reason)),
        facts.dislodged_by is None,
    ensures
        !adjudicated_record(order, facts).succeeded,
        adjudicated_record(order, facts).new_position == Some(order.unit.region),
        adjudicated_record(order, facts).dislodged_by is None,
        adjudicated_record(order, facts).retreat_options.len() == 0,
        adjudicated_record(order, facts).explanation == Explanation::Adjudicated(
            Verdict::Fails(reason),
        ),
{
}

/// Every record of a rejected descriptor is well-formed.
pub proof fn lemma_rejected_record_well_formed(text: Seq<char>, error: OrderError)
    ensures
        rejected_record(text, error).well_formed(),
        rejected_record(text, error).explanation is Rejected,
{
}

/// The result reported for one order descriptor.
#[derive(Debug)]
pub struct UnitResult {
    /// The unit the order was given to; `None` where the descriptor was rejected.
    pub unit: Option<UnitId>,
    /// The order in its canonical form, or the descriptor as it was given
    /// where it was rejected.
    pub order: String,
    /// Whether the order was adjudicated and succeeded.
    pub succeeded: bool,
    /// The region in which the unit stands after the turn; `None` where it is
    /// disbanded, or where the descriptor was rejected.
    pub new_position: Option<String>,
    /// The unit that dislodged this one.
    pub dislodged_by: Option<UnitId>,
    /// The regions that the unit may retreat to, empty unless it was dislodged.
    pub retreat_options: Vec<String>,
    /// Why the order ended as it did.
    pub explanation: Explanation,
}

impl View for UnitResult {
    type V = ResultView;

    open spec fn view(&self) -> ResultView {
        ResultView {
            unit: optional_unit(self.unit),
            order: self.order@,
            succeeded: self.succeeded,
            new_position: optional_text(self.new_position),
            dislodged_by: optional_unit(self.dislodged_by),
            retreat_options: texts(self.retreat_options@),
            explanation: self.explanation,
        }
    }
}

impl UnitResult {
    /// The record of an order from what the adjudication says of it.
    pub fn adjudicated(order: &ParsedOrder, facts: &OrderFacts) -> (record: UnitResult)
        ensures
            record@ == adjudicated_record(order@, facts@),
    {
        let explanation = Explanation::from_outcome(facts.outcome);
        let succeeded = explanation.is_success();
        let moves = succeeded && order.destination.is_some();
        let dislodged_by = match &facts.dislodged_by {
            Some(attacker) if !moves => Some(attacker.duplicate()),
            _ => None,
        };
        let retreat_options = if dislodged_by.is_some() {
            copy_texts(&facts.retreat_options)
        } else {
            Vec::new()
        };
        let new_position = if moves {
            copy_optional_text(&order.destination)
        } else if dislodged_by.is_some() && facts.retreat_options.len() == 0 {
            None
        } else {
            Some(order.unit.region.clone())
        };
        let record = UnitResult {
            unit: Some(order.unit.duplicate()),
            order: order.text.clone(),
            succeeded,
            new_position,
            dislodged_by,
            retreat_options,
            explanation,
        };
        assert(record@.retreat_options =~= retreats(order@, facts@));
        record
    }

    /// The record of a descriptor that was rejected.
    pub fn rejected(text: &str, error: OrderError) -> (record: UnitResult)
        ensures
            record@ == rejected_record(text@, error),
    {
        let record = UnitResult {
            unit: None,
            order: String::from_str(text),
            succeeded: false,
            new_position: None,
            dislodged_by: None,
            retreat_options: Vec::new(),
            explanation: Explanation::Rejected(error),
        };
        assert(record@.retreat_options =~= Seq::empty());
        record
    }
}

} // verus!
