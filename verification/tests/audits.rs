use adjudicator::adjudicate_with_input;
use adjudicator::audit::Inconsistency;
use adjudicator::batch::Batch;
use adjudicator::outcome::{Explanation, FailureReason, OrderError, Verdict};
use adjudicator::record::{OrderFacts, UnitResult};
use adjudicator::summary::AdjudicationSummary;
use adjudicator::unit::{UnitId, UnitType};

fn army(nation: &str, region: &str) -> UnitId {
    UnitId::new(nation.to_string(), UnitType::Army, region.to_string())
}

fn holds(unit: UnitId) -> UnitResult {
    UnitResult {
        order: format!("{} holds", unit.label()),
        new_position: Some(unit.region.clone()),
        unit: Some(unit),
        succeeded: true,
        dislodged_by: None,
        retreat_options: Vec::new(),
        explanation: Explanation::Adjudicated(Verdict::Succeeds),
    }
}

fn moves(unit: UnitId, to: &str) -> UnitResult {
    UnitResult {
        order: format!("{} -> {}", unit.label(), to),
        new_position: Some(to.to_string()),
        unit: Some(unit),
        succeeded: true,
        dislodged_by: None,
        retreat_options: Vec::new(),
        explanation: Explanation::Adjudicated(Verdict::Succeeds),
    }
}

fn bounces(unit: UnitId, to: &str) -> UnitResult {
    UnitResult {
        order: format!("{} -> {}", unit.label(), to),
        new_position: Some(unit.region.clone()),
        unit: Some(unit),
        succeeded: false,
        dislodged_by: None,
        retreat_options: Vec::new(),
        explanation: Explanation::Adjudicated(Verdict::Fails(FailureReason::Bounced)),
    }
}

fn dislodged(unit: UnitId, by: UnitId, options: &[&str]) -> UnitResult {
    UnitResult {
        order: format!("{} holds", unit.label()),
        new_position: if options.is_empty() { None } else { Some(unit.region.clone()) },
        unit: Some(unit),
        succeeded: false,
        dislodged_by: Some(by),
        retreat_options: options.iter().map(|text| text.to_string()).collect(),
        explanation: Explanation::Adjudicated(Verdict::Fails(FailureReason::Dislodged)),
    }
}

fn audit(records: Vec<UnitResult>) -> Result<(), Inconsistency> {
    AdjudicationSummary { unit_results: records }.audit()
}

#[test]
fn sound_records_pass() {
    assert_eq!(audit(Vec::new()), Ok(()));
    assert_eq!(audit(vec![holds(army("FRA", "par")), moves(army("GER", "mun"), "bur")]), Ok(()));
    assert_eq!(
        audit(vec![
            moves(army("AUS", "tyr"), "ven"),
            holds(army("AUS", "tri")),
            dislodged(army("ITA", "ven"), army("AUS", "tyr"), &["rom"]),
            UnitResult::rejected("junk", OrderError::TooFewWords),
            dislodged(army("ITA", "pie"), army("FRA", "mar"), &[]),
            moves(army("FRA", "mar"), "pie"),
        ]),
        Ok(())
    );
    assert_eq!(
        audit(vec![moves(army("FRA", "par"), "bur"), moves(army("FRA", "bur"), "par")]),
        Ok(())
    );
}

#[test]
fn record_without_outcome_is_a_fault() {
    let batch = Batch::read(&vec!["FRA: A par holds".to_string(), "GER: A mun holds".to_string()]);
    let facts = vec![OrderFacts { outcome: Some(Verdict::Succeeds), dislodged_by: None, retreat_options: Vec::new() }];
    let summary = AdjudicationSummary::assemble(&batch, &facts);
    assert_eq!(summary.audit(), Err(Inconsistency::MissingOutcome { record: 1 }));
}

#[test]
fn two_units_in_one_province_is_a_fault() {
    assert_eq!(
        audit(vec![holds(army("FRA", "par")), holds(army("ENG", "lon")), moves(army("GER", "bur"), "par")]),
        Err(Inconsistency::SharedProvince { first: 0, second: 2 })
    );
    assert_eq!(
        audit(vec![moves(army("FRA", "por"), "spa(nc)"), moves(army("ITA", "mar"), "spa(sc)")]),
        Err(Inconsistency::SharedProvince { first: 0, second: 1 })
    );
    assert_eq!(
        audit(vec![bounces(army("FRA", "par"), "bur"), moves(army("ITA", "pic"), "par")]),
        Err(Inconsistency::SharedProvince { first: 0, second: 1 })
    );
}

#[test]
fn dislodgement_that_no_move_bears_out_is_a_fault() {
    assert_eq!(
        audit(vec![holds(army("AUS", "tyr")), dislodged(army("ITA", "ven"), army("AUS", "tyr"), &["rom"])]),
        Err(Inconsistency::Dislodgement { record: 1 })
    );
    assert_eq!(
        audit(vec![
            moves(army("AUS", "tyr"), "ven"),
            dislodged(army("ITA", "ven"), army("AUS", "tri"), &["rom"]),
        ]),
        Err(Inconsistency::Dislodgement { record: 1 })
    );
    assert_eq!(
        audit(vec![
            bounces(army("AUS", "tyr"), "ven"),
            dislodged(army("ITA", "ven"), army("AUS", "tyr"), &[]),
        ]),
        Err(Inconsistency::Dislodgement { record: 1 })
    );
}

#[test]
fn retreat_option_that_cannot_be_one_is_a_fault() {
    assert_eq!(
        audit(vec![
            moves(army("AUS", "tyr"), "ven"),
            holds(army("ITA", "rom")),
            dislodged(army("ITA", "ven"), army("AUS", "tyr"), &["tus", "rom"]),
        ]),
        Err(Inconsistency::RetreatOptions { record: 2 })
    );
    assert_eq!(
        audit(vec![
            moves(army("AUS", "tyr"), "ven"),
            dislodged(army("ITA", "ven"), army("AUS", "tyr"), &["tus", "rom", "tus"]),
        ]),
        Err(Inconsistency::RetreatOptions { record: 1 })
    );
    assert_eq!(
        audit(vec![
            moves(army("AUS", "tyr"), "ven"),
            dislodged(army("ITA", "ven"), army("AUS", "tyr"), &["tus", "ven"]),
        ]),
        Err(Inconsistency::RetreatOptions { record: 1 })
    );
    assert_eq!(
        audit(vec![
            moves(army("AUS", "tyr"), "ven"),
            dislodged(army("ITA", "ven"), army("AUS", "tyr"), &["tyr", "tus"]),
        ]),
        Ok(())
    );
}

#[test]
fn the_standard_turns_are_consistent() {
    let summary = adjudicate_with_input(
        ["GER: A ber -> sil", "GER: A mun supports A ber -> sil", "RUS: A sil holds", "RUS: A war holds", "junk"]
            .iter()
            .map(|text| text.to_string())
            .collect(),
    );
    assert!(summary.is_ok());
    assert_eq!(summary.unwrap().audit(), Ok(()));
}
