use adjudicator::adjudicate_with_input;
use adjudicator::audit::Inconsistency;
use adjudicator::outcome::{Explanation, FailureReason, OrderError, Refusal, Verdict};
use adjudicator::summary::AdjudicationSummary;
use adjudicator::record::UnitResult;

fn turn(orders: &[&str]) -> Result<AdjudicationSummary, Inconsistency> {
    adjudicate_with_input(orders.iter().map(|text| text.to_string()).collect())
}

fn run(orders: &[&str]) -> Vec<UnitResult> {
    turn(orders).unwrap().unit_results
}

fn unit(record: &UnitResult) -> String {
    record.unit.as_ref().unwrap().label()
}

fn dislodger(record: &UnitResult) -> Option<String> {
    record.dislodged_by.as_ref().map(|unit| unit.label())
}

fn at(region: &str) -> Option<String> {
    Some(region.to_string())
}

fn fails(reason: FailureReason) -> Explanation {
    Explanation::Adjudicated(Verdict::Fails(reason))
}

const SUCCEEDS: Explanation = Explanation::Adjudicated(Verdict::Succeeds);

#[test]
fn empty_turn_has_no_records() {
    assert!(run(&[]).is_empty());
}

#[test]
fn equal_moves_to_an_empty_region_both_fail() {
    let records = run(&["AUS: A ven -> tri", "AUS: F alb -> tri"]);
    assert_eq!(records.len(), 2);
    for record in &records {
        assert!(!record.succeeded);
        assert_eq!(record.explanation, fails(FailureReason::Bounced));
        assert_eq!(dislodger(record), None);
        assert!(record.retreat_options.is_empty());
    }
    assert_eq!(unit(&records[0]), "AUS A ven");
    assert_eq!(records[0].new_position, at("ven"));
    assert_eq!(unit(&records[1]), "AUS F alb");
    assert_eq!(records[1].new_position, at("alb"));
}

#[test]
fn equal_moves_of_two_nations_both_fail() {
    let records = run(&["ITA: A ven -> tri", "TUR: F alb -> tri"]);
    assert_eq!(records[0].explanation, fails(FailureReason::Bounced));
    assert_eq!(records[1].explanation, fails(FailureReason::Bounced));
    assert_eq!(records[0].new_position, at("ven"));
    assert_eq!(records[1].new_position, at("alb"));
}

#[test]
fn unopposed_move_succeeds() {
    let records = run(&["FRA: A par -> bur"]);
    assert_eq!(records.len(), 1);
    assert_eq!(unit(&records[0]), "FRA A par");
    assert_eq!(records[0].order, "FRA: A par -> bur");
    assert!(records[0].succeeded);
    assert_eq!(records[0].new_position, at("bur"));
    assert_eq!(records[0].explanation, SUCCEEDS);
    assert_eq!(records[0].explanation.code(), "succeeds");
}

#[test]
fn order_text_is_canonical() {
    let records = run(&["  fra:   fleet  BRE   HOLD ", "ENG: F nth convoys lon -> nwy", "ENG: A lon -> nwy via Convoy"]);
    assert_eq!(records[0].order, "fra: F BRE holds");
    assert_eq!(unit(&records[0]), "fra F BRE");
    assert_eq!(records[1].order, "ENG: F nth convoys A lon -> nwy");
    assert_eq!(records[2].order, "ENG: A lon -> nwy via convoy");
}

#[test]
fn convoyed_army_lands() {
    let records = run(&["ENG: F nth convoys lon -> nwy", "ENG: A lon -> nwy"]);
    assert_eq!(records[0].explanation, SUCCEEDS);
    assert_eq!(records[0].new_position, at("nth"));
    assert_eq!(records[1].explanation, SUCCEEDS);
    assert_eq!(records[1].new_position, at("nwy"));
}

#[test]
fn supported_attack_dislodges_the_defender() {
    let records = run(&[
        "AUS: A tyr -> ven",
        "AUS: A tri supports A tyr -> ven",
        "ITA: A ven holds",
    ]);
    assert!(records[0].succeeded);
    assert_eq!(records[0].new_position, at("ven"));
    assert!(records[1].succeeded);
    assert_eq!(records[1].new_position, at("tri"));
    assert!(!records[2].succeeded);
    assert_eq!(records[2].explanation, fails(FailureReason::Dislodged));
    assert_eq!(dislodger(&records[2]), Some("AUS A tyr".to_string()));
    assert_eq!(records[2].new_position, at("ven"));
    assert_eq!(records[2].retreat_options, vec!["apu".to_string(), "rom".to_string(), "tus".to_string()]);
    assert_eq!(dislodger(&records[0]), None);
    assert!(records[0].retreat_options.is_empty());
}

#[test]
fn attack_on_the_supporter_cuts_the_support() {
    let records = run(&[
        "AUS: A tyr -> ven",
        "AUS: A tri supports A tyr -> ven",
        "ITA: A ven holds",
        "ITA: F adr -> tri",
    ]);
    assert_eq!(records[1].explanation, fails(FailureReason::Cut));
    assert!(!records[1].succeeded);
    assert_eq!(records[0].explanation, fails(FailureReason::OccupierDefended));
    assert_eq!(records[0].new_position, at("tyr"));
    assert_eq!(records[2].explanation, SUCCEEDS);
    assert_eq!(dislodger(&records[2]), None);
    assert_eq!(records[3].explanation, fails(FailureReason::OccupierDefended));
}

#[test]
fn attack_from_the_supported_target_does_not_cut() {
    let records = run(&[
        "AUS: A tyr -> ven",
        "AUS: A tri supports A tyr -> ven",
        "ITA: A ven -> tri",
    ]);
    assert_eq!(records[1].explanation, SUCCEEDS);
    assert_eq!(records[0].explanation, SUCCEEDS);
    assert_eq!(records[0].new_position, at("ven"));
    assert!(!records[2].succeeded);
    assert_eq!(dislodger(&records[2]), Some("AUS A tyr".to_string()));
    assert_eq!(records[2].new_position, at("ven"));
}

#[test]
fn support_of_a_countryman_is_not_cut_by_a_countryman() {
    let records = run(&[
        "AUS: A tyr -> ven",
        "AUS: A tri supports A tyr -> ven",
        "ITA: A ven holds",
        "AUS: F adr -> tri",
    ]);
    assert_eq!(records[1].explanation, SUCCEEDS);
    assert_eq!(records[0].explanation, SUCCEEDS);
}

#[test]
fn convoy_paradox_resolves_the_same_way_every_time() {
    let orders = [
        "FRA: A bre -> lon via convoy",
        "FRA: F eng convoys bre -> lon",
        "ENG: F lon supports F wal -> eng",
        "ENG: F wal -> eng",
    ];
    let first = format!("{:?}", run(&orders));
    for _ in 0..20 {
        assert_eq!(format!("{:?}", run(&orders)), first);
    }
    let records = run(&orders);
    assert_eq!(records[0].explanation, fails(FailureReason::NoPath));
    assert_eq!(records[0].new_position, at("bre"));
    assert_eq!(records[1].explanation, fails(FailureReason::Dislodged));
    assert_eq!(dislodger(&records[1]), Some("ENG F wal".to_string()));
    assert_eq!(records[2].explanation, SUCCEEDS);
    assert_eq!(records[3].explanation, SUCCEEDS);
    assert_eq!(records[3].new_position, at("eng"));
}

#[test]
fn same_orders_give_the_same_summary() {
    let orders = [
        "AUS: A tyr -> ven",
        "AUS: A tri supports A tyr -> ven",
        "ITA: A ven -> lon",
        "TUR: F ion -> nap",
        "TUR: F tys supports F ion -> nap",
        "ITA: A nap holds",
        "not an order",
        "GER: A ber -> bel",
        "GER: A mun -> lon",
    ];
    let first = format!("{:?}", run(&orders));
    for _ in 0..20 {
        assert_eq!(format!("{:?}", run(&orders)), first);
    }
}

#[test]
fn every_unit_is_reported_once() {
    let orders = [
        "AUS: A tyr -> ven",
        "AUS: A tri supports A tyr -> ven",
        "ITA: A ven holds",
        "ITA: F adr -> tri",
        "ENG: F nth convoys lon -> nwy",
        "ENG: A lon -> nwy",
    ];
    let records = run(&orders);
    let units: Vec<String> = records.iter().map(unit).collect();
    assert_eq!(units, vec!["AUS A tyr", "AUS A tri", "ITA A ven", "ITA F adr", "ENG F nth", "ENG A lon"]);
}

#[test]
fn one_bad_descriptor_is_rejected_alone() {
    let with = run(&["AUS: A ven -> tri", "nonsense", "ITA: Q rom holds", "AUS: F alb -> tri"]);
    assert_eq!(with.len(), 4);
    assert_eq!(with[1].explanation, Explanation::Rejected(OrderError::TooFewWords));
    assert_eq!(with[1].order, "nonsense");
    assert!(with[1].unit.is_none());
    assert!(!with[1].succeeded);
    assert_eq!(with[1].new_position, None);
    assert_eq!(dislodger(&with[1]), None);
    assert!(with[1].retreat_options.is_empty());
    assert_eq!(with[2].explanation, Explanation::Rejected(OrderError::Refused(Refusal::InvalidUnitType)));
    assert_eq!(with[2].order, "ITA: Q rom holds");
    let without = run(&["AUS: A ven -> tri", "AUS: F alb -> tri"]);
    assert_eq!(format!("{:?}", with[0]), format!("{:?}", without[0]));
    assert_eq!(format!("{:?}", with[3]), format!("{:?}", without[1]));
    assert_eq!(with[0].explanation, fails(FailureReason::Bounced));
}

#[test]
fn all_descriptors_bad() {
    let records = run(&["", "x", "FRA: A par"]);
    assert_eq!(records.len(), 3);
    for record in &records {
        assert_eq!(record.explanation, Explanation::Rejected(OrderError::TooFewWords));
        assert_eq!(record.explanation.code(), "too_few_words");
    }
    assert_eq!(records[2].order, "FRA: A par");
}

#[test]
fn illegal_order_holds_and_can_be_dislodged() {
    let records = run(&["AUS: A tyr -> ven", "AUS: A tri supports A tyr -> ven", "ITA: A ven -> lon"]);
    assert_eq!(records[2].explanation, fails(FailureReason::UnreachableDestination));
    assert!(!records[2].succeeded);
    assert_eq!(dislodger(&records[2]), Some("AUS A tyr".to_string()));
    assert_eq!(records[2].new_position, at("ven"));
    assert_eq!(records[2].retreat_options, vec!["apu".to_string(), "rom".to_string(), "tus".to_string()]);
    assert_eq!(records[0].explanation, SUCCEEDS);
}

#[test]
fn illegal_order_holds_where_it_stands() {
    let records = run(&["GER: A mun -> lon"]);
    assert_eq!(records[0].explanation, fails(FailureReason::UnreachableDestination));
    assert_eq!(records[0].new_position, at("mun"));
    assert_eq!(dislodger(&records[0]), None);
}

#[test]
fn repeated_order_is_rejected() {
    let records = run(&["FRA: A par holds", "FRA: A par holds"]);
    assert_eq!(records[0].explanation, SUCCEEDS);
    assert_eq!(records[0].new_position, at("par"));
    assert_eq!(records[1].explanation, Explanation::Rejected(OrderError::ProvinceTaken));
    assert_eq!(records[1].explanation.code(), "province_taken");
    assert_eq!(records[1].order, "FRA: A par holds");
    assert!(records[1].unit.is_none());
}

#[test]
fn second_unit_in_a_province_is_rejected() {
    let records = run(&["FRA: A par holds", "GER: A par -> bur", "ITA: F spa(nc) holds", "ITA: F spa(sc) holds", "GER: A bur holds"]);
    assert_eq!(records[0].explanation, SUCCEEDS);
    assert_eq!(records[1].explanation, Explanation::Rejected(OrderError::ProvinceTaken));
    assert_eq!(records[1].order, "GER: A par -> bur");
    assert_eq!(records[2].explanation, SUCCEEDS);
    assert_eq!(records[3].explanation, Explanation::Rejected(OrderError::ProvinceTaken));
    assert_eq!(records[4].explanation, SUCCEEDS);
    assert_eq!(unit(&records[4]), "GER A bur");
}

#[test]
fn rejected_descriptor_takes_no_province() {
    let records = run(&["FRA: Q par holds", "GER: A par holds"]);
    assert_eq!(records[0].explanation, Explanation::Rejected(OrderError::Refused(Refusal::InvalidUnitType)));
    assert_eq!(records[1].explanation, SUCCEEDS);
}

#[test]
fn two_fleets_in_one_sea_do_not_reach_the_adjudicator() {
    let orders = [
        "ENG: F lon supports F wal -> eng",
        "ENG: F wal -> eng",
        "GER: F bel -> eng",
        "GER: F pic supports F bel -> eng",
        "FRA: A bre -> lon",
        "FRA: F eng convoys bre -> lon",
        "RUS: A nwy -> lon",
        "RUS: F nth convoys nwy -> lon",
        "TUR: F nth convoys den -> edi",
        "TUR: A den -> edi",
        "ITA: F hel -> nth",
        "ITA: F edi supports F hel -> nth",
    ];
    let records = run(&orders);
    assert_eq!(records.len(), 12);
    assert_eq!(records[8].explanation, Explanation::Rejected(OrderError::ProvinceTaken));
    assert_eq!(records[8].order, "TUR: F nth convoys den -> edi");
    for (at, record) in records.iter().enumerate() {
        if at != 8 {
            assert!(record.unit.is_some());
        }
    }
    let first = format!("{:?}", records);
    for _ in 0..10 {
        assert_eq!(format!("{:?}", run(&orders)), first);
    }
}

#[test]
fn holds_for_invalid_orders_never_share_a_province() {
    let orders = ["FRA: A par -> xyz", "GER: A par -> xyz", "FRA: A bur -> par"];
    let records = run(&orders);
    assert_eq!(records[0].explanation, fails(FailureReason::UnreachableDestination));
    assert_eq!(records[1].explanation, Explanation::Rejected(OrderError::ProvinceTaken));
    assert_eq!(records[2].explanation, fails(FailureReason::FriendlyFire));
    for _ in 0..20 {
        assert_eq!(format!("{:?}", run(&orders)), format!("{:?}", records));
    }
}

#[test]
fn adjudicated_turns_pass_the_audit() {
    let turns: [&[&str]; 6] = [
        &["AUS: A tyr -> ven", "AUS: A tri supports A tyr -> ven", "ITA: A ven holds"],
        &["AUS: A tyr -> ven", "AUS: A tri supports A tyr -> ven", "ITA: A ven -> lon"],
        &["GER: A ber -> pru", "GER: A sil supports A ber -> pru", "RUS: A pru -> ber"],
        &["ENG: F nth convoys lon -> nwy", "ENG: A lon -> nwy", "RUS: A nwy -> swe"],
        &["FRA: A par -> bur", "FRA: A bur -> mar", "FRA: A mar -> par"],
        &["FRA: A bre -> lon via convoy", "FRA: F eng convoys bre -> lon", "ENG: F lon supports F wal -> eng", "ENG: F wal -> eng"],
    ];
    for orders in turns {
        let summary = turn(orders).unwrap();
        assert_eq!(summary.audit(), Ok(()));
    }
}

#[test]
fn surrounded_unit_is_disbanded() {
    let records = run(&[
        "GER: A ber -> sil",
        "GER: A mun supports A ber -> sil",
        "RUS: A sil holds",
        "RUS: A war holds",
        "RUS: A gal holds",
        "RUS: A boh holds",
        "RUS: A pru holds",
    ]);
    assert_eq!(records[0].new_position, at("sil"));
    assert_eq!(records[2].explanation, fails(FailureReason::Dislodged));
    assert_eq!(dislodger(&records[2]), Some("GER A ber".to_string()));
    assert!(records[2].retreat_options.is_empty());
    assert_eq!(records[2].new_position, None);
    assert_eq!(records[3].new_position, at("war"));
}

#[test]
fn failures_without_a_fight() {
    let records = run(&[
        "FRA: A par -> par",
        "FRA: F bre supports F bre",
        "GER: A mun supports A par",
        "ENG: F lon convoys wal -> bel",
    ]);
    assert_eq!(records[0].explanation, fails(FailureReason::MoveToSelf));
    assert_eq!(records[1].explanation, fails(FailureReason::SupportingSelf));
    assert_eq!(records[2].explanation, fails(FailureReason::CantReach));
    assert_eq!(records[3].explanation, fails(FailureReason::NotAtSea));
    for record in &records {
        assert!(!record.succeeded);
        assert_eq!(record.new_position, at(&record.unit.as_ref().unwrap().region));
    }
}

#[test]
fn beaten_head_to_head() {
    let records = run(&[
        "GER: A ber -> pru",
        "GER: A sil supports A ber -> pru",
        "RUS: A pru -> ber",
    ]);
    assert_eq!(records[0].explanation, SUCCEEDS);
    assert_eq!(records[2].explanation, fails(FailureReason::LostHeadToHead));
    assert_eq!(dislodger(&records[2]), Some("GER A ber".to_string()));
}

#[test]
fn own_unit_is_not_dislodged() {
    let records = run(&[
        "GER: A ber -> pru",
        "GER: A sil supports A ber -> pru",
        "GER: A pru holds",
    ]);
    assert_eq!(records[0].explanation, fails(FailureReason::FriendlyFire));
    assert_eq!(records[0].new_position, at("ber"));
    assert_eq!(records[2].explanation, SUCCEEDS);
}

#[test]
fn records_explain_themselves_consistently() {
    let records = run(&[
        "AUS: A tyr -> ven",
        "AUS: A tri supports A tyr -> ven",
        "ITA: A ven holds",
        "ITA: F adr -> tri",
        "bad",
    ]);
    for record in &records {
        assert_eq!(record.succeeded, record.explanation.is_success());
        assert_eq!(record.succeeded, record.explanation == SUCCEEDS);
        if !record.retreat_options.is_empty() {
            assert!(record.dislodged_by.is_some());
        }
    }
}
