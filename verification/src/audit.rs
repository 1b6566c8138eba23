//! The audit of a summary: what must hold of the records of a turn whatever
//! the adjudicator decided, tested record by record.
//!
//! A summary that fails the audit is the sign of a fault in the adjudication,
//! not in any order. It is reported as an `Inconsistency`, apart from the
//! failures of orders.

use crate::record::{ResultView, UnitResult};
use crate::region::{province, same_province};
use crate::summary::AdjudicationSummary;
use crate::text::same_text;
use crate::unit::{UnitId, UnitView};
use vstd::prelude::*;

verus! {

/// Whether the record's unit has left its region: its order succeeded and it
/// stands in another region than before.
pub open spec fn moved(record: ResultView) -> bool {
    &&& record.unit is Some
    &&& record.succeeded
    &&& record.new_position is Some
    &&& record.new_position != Some(record.unit->0.region)
}

/// Whether the record's unit stands on the board after the turn: it has a
/// unit and the unit was not dislodged.
pub open spec fn survives(record: ResultView) -> bool {
    record.unit is Some && record.dislodged_by is None && record.new_position is Some
}

/// Whether the units of two different records both stand in one province
/// after the turn.
pub open spec fn clash(records: Seq<ResultView>, i: int, j: int) -> bool {
    &&& 0 <= i < records.len()
    &&& 0 <= j < records.len()
    &&& i != j
    &&& survives(records[i])
    &&& survives(records[j])
    &&& province(records[i].new_position->0) == province(records[j].new_position->0)
}

/// Whether the unit of `records[j]` has moved into the province where the
/// unit of another record, `records[i]`, stood; and is `attacker`, where one
/// is named.
pub open spec fn takes(records: Seq<ResultView>, j: int, i: int, attacker: Option<UnitView>)
    -> bool {
    &&& 0 <= i < records.len()
    &&& 0 <= j < records.len()
    &&& j != i
    &&& records[i].unit is Some
    &&& moved(records[j])
    &&& province(records[j].new_position->0) == province(records[i].unit->0.region)
    &&& attacker is Some ==> records[j].unit == attacker
}

/// Whether the record says of its unit's dislodgement what the other records
/// bear out: the unit is dislodged exactly where it has not moved away and
/// another unit has moved into its province, and that unit is the one named.
pub open spec fn dislodgement_fits(records: Seq<ResultView>, i: int) -> bool {
    records[i].unit is Some ==> match records[i].dislodged_by {
        Some(attacker) => !moved(records[i]) && exists|j: int|
            takes(records, j, i, Some(attacker)),
        None => moved(records[i]) || forall|j: int| !takes(records, j, i, None),
    }
}

/// Whether a unit stands in the province of the region after the turn.
pub open spec fn occupied(records: Seq<ResultView>, region: Seq<char>) -> bool {
    exists|j: int|
        0 <= j < records.len() && survives(#[trigger] records[j]) && province(
            records[j].new_position->0,
        ) == province(region)
}

/// Whether the record's retreat options can be what they are called: no
/// region is listed twice, and none lies in a province where a unit stands
/// after the turn.
pub open spec fn options_fit(records: Seq<ResultView>, i: int) -> bool {
    &&& records[i].retreat_options.no_duplicates()
    &&& forall|a: int|
        0 <= a < records[i].retreat_options.len() ==> !occupied(
            records,
            #[trigger] records[i].retreat_options[a],
        )
}

/// What holds of the records of a turn that was adjudicated soundly: every
/// order that was read has an outcome, no two units stand in one province
/// after the turn, each record's dislodgement fits the other records, and so
/// do its retreat options.
pub open spec fn consistent(records: Seq<ResultView>) -> bool {
    &&& forall|i: int| 0 <= i < records.len() ==> !(#[trigger] records[i].explanation is MissingOutcome)
    &&& forall|i: int, j: int| !clash(records, i, j)
    &&& forall|i: int| 0 <= i < records.len() ==> dislodgement_fits(records, i)
    &&& forall|i: int| 0 <= i < records.len() ==> options_fit(records, i)
}

/// A fault found in the records of a turn.
#[derive(Clone, Copy, Debug, PartialEq, Eq, Structural)]
pub enum Inconsistency {
    /// The adjudication holds no outcome for the order of this record.
    MissingOutcome { record: usize },
    /// The units of these two records both stand in one province after the turn.
    SharedProvince { first: usize, second: usize },
    /// What this record says of its unit's dislodgement does not fit the
    /// other records.
    Dislodgement { record: usize },
    /// This record lists a retreat option twice, or one in a province where a
    /// unit stands after the turn.
    RetreatOptions { record: usize },
}

/// Whether the records have the fault.
pub open spec fn fault_in(records: Seq<ResultView>, fault: Inconsistency) -> bool {
    match fault {
        Inconsistency::MissingOutcome { record } => record < records.len()
            && records[record as int].explanation is MissingOutcome,
        Inconsistency::SharedProvince { first, second } => clash(
            records,
            first as int,
            second as int,
        ),
        Inconsistency::Dislodgement { record } => record < records.len() && !dislodgement_fits(
            records,
            record as int,
        ),
        Inconsistency::RetreatOptions { record } => record < records.len() && !options_fit(
            records,
            record as int,
        ),
    }
}

/// Records that have a fault are not consistent.
pub proof fn lemma_fault_is_inconsistent(records: Seq<ResultView>, fault: Inconsistency)
    requires
        fault_in(records, fault),
    ensures
        !consistent(records),
{
}

/// Whether the record's unit has left its region.
fn has_moved(record: &UnitResult) -> (yes: bool)
    ensures
        yes == moved(record@),
{
    match (&record.unit, &record.new_position) {
        (Some(unit), Some(position)) => record.succeeded && !same_text(
            position.as_str(),
            unit.region.as_str(),
        ),
        _ => false,
    }
}

/// Whether the record's unit stands on the board after the turn.
fn does_survive(record: &UnitResult) -> (yes: bool)
    ensures
        yes == survives(record@),
{
    record.unit.is_some() && record.dislodged_by.is_none() && record.new_position.is_some()
}

/// The first record whose unit stands in one province with the unit of
/// record `i`.
fn find_clash(summary: &AdjudicationSummary, i: usize) -> (found: Option<usize>)
    requires
        i < summary.unit_results@.len(),
    ensures
        found matches Some(j) ==> clash(summary@, i as int, j as int),
        found is None ==> forall|j: int| !clash(summary@, i as int, j),
{
    let records = &summary.unit_results;
    let ghost views = summary@;
    let this = &records[i];
    assert(views[i as int] == this@);
    if !does_survive(this) {
        return None;
    }
    let mut j: usize = 0;
    while j < records.len()
        invariant
            j <= records@.len(),
            i < records@.len(),
            views == summary@,
            records == &summary.unit_results,
            this == &records@[i as int],
            survives(this@),
            forall|k: int| 0 <= k < j ==> !clash(views, i as int, k),
        decreases records@.len() - j,
    {
        let other = &records[j];
        assert(views[j as int] == other@);
        assert(views[i as int] == this@);
        let meet = match (&this.new_position, &other.new_position) {
            (Some(here), Some(there)) => j != i && does_survive(other) && same_province(
                here.as_str(),
                there.as_str(),
            ),
            _ => false,
        };
        if meet {
            return Some(j);
        }
        j = j + 1;
    }
    None
}

/// The first record whose unit has moved into the province where the unit of
/// record `i` stood, and is `attacker` where one is named.
fn find_taker(summary: &AdjudicationSummary, i: usize, attacker: &Option<UnitId>) -> (found:
    Option<usize>)
    requires
        i < summary.unit_results@.len(),
    ensures
        found matches Some(j) ==> takes(
            summary@,
            j as int,
            i as int,
            crate::record::optional_unit(*attacker),
        ),
        found is None ==> forall|j: int|
            !takes(summary@, j, i as int, crate::record::optional_unit(*attacker)),
{
    let records = &summary.unit_results;
    let ghost views = summary@;
    let ghost named = crate::record::optional_unit(*attacker);
    let this = &records[i];
    assert(views[i as int] == this@);
    let region = match &this.unit {
        Some(unit) => unit.region.as_str(),
        None => {
            return None;
        },
    };
    let mut j: usize = 0;
    while j < records.len()
        invariant
            j <= records@.len(),
            i < records@.len(),
            views == summary@,
            records == &summary.unit_results,
            named == crate::record::optional_unit(*attacker),
            views[i as int].unit is Some,
            region@ == views[i as int].unit->0.region,
            forall|k: int| 0 <= k < j ==> !takes(views, k, i as int, named),
        decreases records@.len() - j,
    {
        let other = &records[j];
        assert(views[j as int] == other@);
        let into = match &other.new_position {
            Some(position) => j != i && has_moved(other) && same_province(
                position.as_str(),
                region,
            ),
            None => false,
        };
        let is_named = match (attacker, &other.unit) {
            (Some(attacker), Some(unit)) => unit.same_as(attacker),
            (Some(_), None) => false,
            (None, _) => true,
        };
        if into && is_named {
            return Some(j);
        }
        j = j + 1;
    }
    None
}

/// Whether the record says of its unit's dislodgement what the other records
/// bear out.
fn check_dislodgement(summary: &AdjudicationSummary, i: usize) -> (fits: bool)
    requires
        i < summary.unit_results@.len(),
    ensures
        fits == dislodgement_fits(summary@, i as int),
{
    let record = &summary.unit_results[i];
    assert(summary@[i as int] == record@);
    if record.unit.is_none() {
        return true;
    }
    let taker = find_taker(summary, i, &record.dislodged_by);
    if record.dislodged_by.is_some() {
        !has_moved(record) && taker.is_some()
    } else {
        has_moved(record) || taker.is_none()
    }
}

/// Whether a unit stands in the province of the region after the turn.
fn is_occupied(summary: &AdjudicationSummary, region: &str) -> (yes: bool)
    ensures
        yes == occupied(summary@, region@),
{
    let records = &summary.unit_results;
    let ghost views = summary@;
    let mut j: usize = 0;
    while j < records.len()
        invariant
            j <= records@.len(),
            views == summary@,
            records == &summary.unit_results,
            forall|k: int|
                0 <= k < j ==> !(survives(#[trigger] views[k]) && province(
                    views[k].new_position->0,
                ) == province(region@)),
        decreases records@.len() - j,
    {
        let other = &records[j];
        assert(views[j as int] == other@);
        let here = match &other.new_position {
            Some(position) => does_survive(other) && same_province(position.as_str(), region),
            None => false,
        };
        if here {
            return true;
        }
        j = j + 1;
    }
    false
}

/// Whether the record's retreat options can be what they are called.
fn check_options(summary: &AdjudicationSummary, i: usize) -> (fits: bool)
    requires
        i < summary.unit_results@.len(),
    ensures
        fits == options_fit(summary@, i as int),
{
    let options = &summary.unit_results[i].retreat_options;
    let ghost views = summary@;
    let ghost listed = views[i as int].retreat_options;
    assert(views[i as int] == summary.unit_results@[i as int]@);
    let mut a: usize = 0;
    while a < options.len()
        invariant
            a <= options@.len(),
            i < summary.unit_results@.len(),
            views == summary@,
            options == &summary.unit_results@[i as int].retreat_options,
            listed == views[i as int].retreat_options,
            listed == crate::text::texts(options@),
            forall|b: int, c: int| 0 <= b < c < a ==> listed[b] != listed[c],
            forall|b: int| 0 <= b < a ==> !occupied(views, #[trigger] listed[b]),
        decreases options@.len() - a,
    {
        assert(listed[a as int] == options@[a as int]@);
        if is_occupied(summary, options[a].as_str()) {
            return false;
        }
        let mut b: usize = 0;
        while b < a
            invariant
                b <= a,
                a < options@.len(),
                listed == summary@[i as int].retreat_options,
                listed == crate::text::texts(options@),
                forall|c: int| 0 <= c < b ==> listed[c] != listed[a as int],
            decreases a - b,
        {
            assert(listed[b as int] == options@[b as int]@);
            assert(listed[a as int] == options@[a as int]@);
            if same_text(options[b].as_str(), options[a].as_str()) {
                assert(listed[b as int] == listed[a as int]);
                assert(!listed.no_duplicates());
                return false;
            }
            b = b + 1;
        }
        a = a + 1;
    }
    true
}

impl AdjudicationSummary {
    /// Audits the summary: `Ok` exactly where it is consistent, and else the
    /// first fault found.
    pub fn audit(&self) -> (verdict: Result<(), Inconsistency>)
        ensures
            verdict is Ok <==> consistent(self@),
            verdict matches Err(fault) ==> fault_in(self@, fault),
    {
        let ghost views = self@;
        let mut i: usize = 0;
        while i < self.unit_results.len()
            invariant
                i <= self.unit_results@.len(),
                views == self@,
                forall|k: int| 0 <= k < i ==> !(#[trigger] views[k].explanation is MissingOutcome),
                forall|k: int, j: int| 0 <= k < i ==> !clash(views, k, j),
                forall|k: int| 0 <= k < i ==> dislodgement_fits(views, k),
                forall|k: int| 0 <= k < i ==> options_fit(views, k),
            decreases self.unit_results@.len() - i,
        {
            assert(views[i as int] == self.unit_results@[i as int]@);
            match self.unit_results[i].explanation {
                crate::outcome::Explanation::MissingOutcome => {
                    assert(views[i as int].explanation is MissingOutcome);
                    return Err(Inconsistency::MissingOutcome { record: i });
                },
                _ => {},
            }
            match find_clash(self, i) {
                Some(j) => {
                    return Err(Inconsistency::SharedProvince { first: i, second: j });
                },
                None => {},
            }
            if !check_dislodgement(self, i) {
                return Err(Inconsistency::Dislodgement { record: i });
            }
            if !check_options(self, i) {
                return Err(Inconsistency::RetreatOptions { record: i });
            }
            i = i + 1;
        }
        Ok(())
    }
}

} // verus!
