//! The boundary to the `diplomacy` crate, which parses and adjudicates the orders.
//!
//! Nothing in this file is proved. Each function asks the crate one thing and
//! turns the answer into values of this library; its contract, where it has
//! one, says what the rest of the library relies on. What the adjudicator
//! decides is given no contract: the library is proved for whatever it decides.

use crate::order::{one_unit_per_province, order_views, OrderView, ParsedOrder};
use crate::outcome::{FailureReason, Refusal, Verdict};
use crate::unit::{UnitId, UnitType};
use diplomacy::judge;
use diplomacy::judge::retreat::Start;
use diplomacy::judge::{MappedMainOrder, Outcome, Rulebook, Submission};
use diplomacy::order::{MainCommand, Order};
use diplomacy::parser::ErrorKind;
use diplomacy::{Command, ShortName};
use vstd::prelude::*;

verus! {

/// `diplomacy::geo::Map`: the provinces, regions and borders of a board.
#[verifier::external_type_specification]
#[verifier::external_body]
pub struct ExMap(diplomacy::geo::Map);

/// `diplomacy::parser::Error`: why the crate's parser refused a text.
#[verifier::external_type_specification]
#[verifier::external_body]
pub struct ExParseError(diplomacy::parser::Error);

/// `diplomacy::judge::Rulebook`: the standard rules.
#[verifier::external_type_specification]
#[verifier::external_body]
pub struct ExRulebook(Rulebook);

/// `diplomacy::judge::Submission`: the orders of one turn, checked against a map.
#[verifier::external_type_specification]
#[verifier::external_body]
pub struct ExSubmission<'a>(Submission<'a>);

/// `diplomacy::judge::Outcome`: the adjudicated turn.
#[verifier::external_type_specification]
#[verifier::external_body]
#[verifier::reject_recursive_types(A)]
pub struct ExOutcome<'a, A>(Outcome<'a, A>);

/// `diplomacy::judge::OrderOutcome`: what the adjudication holds for one order.
#[verifier::external_type_specification]
#[verifier::external_body]
pub struct ExOrderOutcome<'a>(judge::OrderOutcome<'a>);

/// `diplomacy::judge::retreat::Start`: who was dislodged, and where each may go.
#[verifier::external_type_specification]
#[verifier::external_body]
pub struct ExStart<'a>(Start<'a>);

/// An order as the `diplomacy` crate holds it, of type
/// `diplomacy::judge::MappedMainOrder`. The library carries it through and
/// never looks inside. The crate's type cannot be declared to the verifier
/// as the others above are, because its parameters are bounded by traits of
/// the crate; so it is held in a struct that the verifier does not open.
#[verifier::external_body]
pub struct EngineOrder {
    inner: MappedMainOrder,
}

/// The words of a text: what `str::split_whitespace` yields for it, in order.
/// These are the words that the crate's parser sees.
pub uninterp spec fn whitespace_words(text: Seq<char>) -> Seq<Seq<char>>;

/// What `<MappedMainOrder as FromStr>::from_str` reads from a text of at least
/// four words: the order, as the plain values that the library keeps of it,
/// or `None` where the parser refuses the text.
pub uninterp spec fn parsed_order(text: Seq<char>) -> Option<OrderView>;

/// `str::split_whitespace`, counted: the number of words in the text.
#[verifier::external_body]
pub(crate) fn count_words(text: &str) -> (count: usize)
    ensures
        count == whitespace_words(text@).len(),
{
    text.split_whitespace().count()
}

/// `<MappedMainOrder as FromStr>::from_str`. The parser splits the text at
/// whitespace and indexes the first four words without a test, hence the
/// `requires`; with four words or more it returns an order or an error. What
/// it reads depends on the text alone. The order comes back with the short
/// names of its nation and region, its unit type, its `Display` text and the
/// short name of its move destination written out as plain values.
#[verifier::external_body]
pub(crate) fn parse_order(text: &str) -> (parsed: Result<ParsedOrder, diplomacy::parser::Error>)
    requires
        whitespace_words(text@).len() >= 4,
    ensures
        parsed matches Ok(order) ==> parsed_order(text@) == Some(order@),
        parsed is Err ==> parsed_order(text@) is None,
{
    let inner = text.parse::<MappedMainOrder>()?;
    let unit_type = match inner.unit_type {
        diplomacy::UnitType::Army => UnitType::Army,
        diplomacy::UnitType::Fleet => UnitType::Fleet,
    };
    Ok(ParsedOrder {
        unit: UnitId {
            nation: inner.nation.short_name().into(),
            unit_type,
            region: inner.region.short_name().into(),
        },
        text: inner.to_string(),
        destination: inner.move_dest().map(|region| region.short_name().into()),
        handle: EngineOrder { inner },
    })
}

/// `diplomacy::parser::Error::kind`, in the library's vocabulary. The crate may
/// add kinds; one that is not listed here comes back as `Unrecognized`, and so
/// does the kind that the crate keeps for a text of too few words, which its
/// parser of orders never gives.
#[verifier::external_body]
pub(crate) fn error_kind(error: &diplomacy::parser::Error) -> Refusal {
    match error.kind() {
        ErrorKind::InvalidUnitType => Refusal::InvalidUnitType,
        ErrorKind::UnknownCommand => Refusal::UnknownCommand,
        ErrorKind::BadCoast => Refusal::BadCoast,
        ErrorKind::MalformedMove => Refusal::MalformedMove,
        ErrorKind::MalformedRegion => Refusal::MalformedRegion,
        ErrorKind::MalformedSupport => Refusal::MalformedSupport,
        ErrorKind::MalformedConvoy => Refusal::MalformedConvoy,
        _ => Refusal::Unrecognized,
    }
}

/// `diplomacy::geo::standard_map`: the standard board.
#[verifier::external_body]
pub(crate) fn standard_geography() -> &'static diplomacy::geo::Map {
    diplomacy::geo::standard_map()
}

/// `Submission::with_inferred_state`: the orders are submitted in the order
/// given, and every ordered unit is taken to stand where its order says. The
/// crate sets aside the orders it finds invalid and has their units hold.
///
/// The orders must be given to units in different provinces. The crate does
/// not ask for this, but its resolver is written for a board with one unit to
/// a province: with two orders in one province it can index past the end of
/// its chain of dependencies, and the holds it adds for invalid orders can
/// come to stand in one province, where the order in which it finds them is
/// not fixed.
#[verifier::external_body]
pub(crate) fn submit<'a>(
    map: &'a diplomacy::geo::Map,
    orders: &Vec<ParsedOrder>,
) -> Submission<'a>
    requires
        one_unit_per_province(order_views(orders@)),
{
    let orders = orders.iter().map(|order| order.handle.inner.clone()).collect();
    Submission::with_inferred_state(map, orders)
}

/// `Submission::adjudicate`, under the standard rules. The crate resolves the
/// orders by recursion over their dependencies and settles a cycle of
/// dependencies by its own rule; nothing is claimed of what it decides. The
/// submission comes from `submit`, so its orders are given to units in
/// different provinces.
#[verifier::external_body]
pub(crate) fn adjudicate<'a>(submission: &'a Submission<'a>) -> Outcome<'a, Rulebook> {
    submission.adjudicate(Rulebook)
}

/// `retreat::Start::new`: the state in which the retreat phase begins, worked
/// out by the crate from the adjudicated turn.
#[verifier::external_body]
pub(crate) fn retreat_start<'a>(outcome: &'a Outcome<'a, Rulebook>) -> Start<'a> {
    Start::new(outcome)
}

/// `Order::new` with the command `MainCommand::Hold`: the order that tells the
/// unit of `order` to hold. The crate puts this order in the place of one
/// that it finds invalid.
#[verifier::external_body]
pub(crate) fn implicit_hold(order: &EngineOrder) -> EngineOrder {
    let unit = &order.inner;
    let hold = MainCommand::Hold;
    EngineOrder { inner: Order::new(unit.nation.clone(), unit.unit_type, unit.region.clone(), hold) }
}

/// `Outcome::get`: what the adjudication holds for the order, `None` where it
/// holds nothing for it.
#[verifier::external_body]
pub(crate) fn outcome_of<'a>(
    outcome: &'a Outcome<'a, Rulebook>,
    order: &'a EngineOrder,
) -> Option<&'a judge::OrderOutcome<'a>> {
    outcome.get(&order.inner)
}

/// `OrderOutcome::Invalid` and the variants of `InvalidOrder`: the outcome of
/// an order that the crate found invalid before adjudication, `None` for any
/// other. Such an order fails.
#[verifier::external_body]
pub(crate) fn invalid_outcome(outcome: &judge::OrderOutcome<'_>) -> Option<Verdict> {
    let judge::OrderOutcome::Invalid(invalid) = outcome else { return None };
    Some(Verdict::Fails(match invalid {
        judge::InvalidOrder::NoUnit => FailureReason::NoUnit,
        judge::InvalidOrder::ForeignUnit => FailureReason::ForeignUnit,
        judge::InvalidOrder::MultipleToSameUnit => FailureReason::MultipleToSameUnit,
        judge::InvalidOrder::UnreachableDestination => FailureReason::UnreachableDestination,
    }))
}

/// `OrderOutcome::Hold` and the variants of `HoldOutcome`: the outcome of a
/// hold order, `None` for any other. As in the crate's `OrderState::from`, the
/// order succeeds only as `HoldOutcome::Succeeds`.
#[verifier::external_body]
pub(crate) fn hold_outcome(outcome: &judge::OrderOutcome<'_>) -> Option<Verdict> {
    let judge::OrderOutcome::Hold(hold) = outcome else { return None };
    Some(match hold {
        judge::HoldOutcome::Succeeds => Verdict::Succeeds,
        judge::HoldOutcome::Dislodged(_) => Verdict::Fails(FailureReason::Dislodged),
    })
}

/// `OrderOutcome::Move` and the variants of `AttackOutcome`: the outcome of a
/// move order, `None` for any other. As in the crate's `OrderState::from`, the
/// order succeeds only as `AttackOutcome::Succeeds`.
#[verifier::external_body]
pub(crate) fn move_outcome(outcome: &judge::OrderOutcome<'_>) -> Option<Verdict> {
    let judge::OrderOutcome::Move(attack) = outcome else { return None };
    Some(match attack {
        judge::AttackOutcome::Succeeds => Verdict::Succeeds,
        judge::AttackOutcome::MoveToSelf => Verdict::Fails(FailureReason::MoveToSelf),
        judge::AttackOutcome::NoPath => Verdict::Fails(FailureReason::NoPath),
        judge::AttackOutcome::FriendlyFire => Verdict::Fails(FailureReason::FriendlyFire),
        judge::AttackOutcome::Prevented(_) => Verdict::Fails(FailureReason::Bounced),
        judge::AttackOutcome::LostHeadToHead => Verdict::Fails(FailureReason::LostHeadToHead),
        judge::AttackOutcome::OccupierDefended => {
            Verdict::Fails(FailureReason::OccupierDefended)
        },
    })
}

/// `OrderOutcome::Support` and the variants of `SupportOutcome`: the outcome of
/// a support order, `None` for any other. As in the crate's
/// `OrderState::from`, the order succeeds only as `SupportOutcome::NotDisrupted`.
#[verifier::external_body]
pub(crate) fn support_outcome(outcome: &judge::OrderOutcome<'_>) -> Option<Verdict> {
    let judge::OrderOutcome::Support(support) = outcome else { return None };
    Some(match support {
        judge::SupportOutcome::NotDisrupted => Verdict::Succeeds,
        judge::SupportOutcome::SupportingSelf => Verdict::Fails(FailureReason::SupportingSelf),
        judge::SupportOutcome::CantReach => Verdict::Fails(FailureReason::CantReach),
        judge::SupportOutcome::CutBy(_) => Verdict::Fails(FailureReason::Cut),
    })
}

/// `OrderOutcome::Convoy` and the variants of `ConvoyOutcome`: the outcome of a
/// convoy order, `None` for any other. As in the crate's `OrderState::from`,
/// the order succeeds only as `ConvoyOutcome::NotDisrupted`.
#[verifier::external_body]
pub(crate) fn convoy_outcome(outcome: &judge::OrderOutcome<'_>) -> Option<Verdict> {
    let judge::OrderOutcome::Convoy(convoy) = outcome else { return None };
    Some(match convoy {
        judge::ConvoyOutcome::NotDisrupted => Verdict::Succeeds,
        judge::ConvoyOutcome::NotAtSea => Verdict::Fails(FailureReason::NotAtSea),
        judge::ConvoyOutcome::Dislodged(_) => Verdict::Fails(FailureReason::Dislodged),
        judge::ConvoyOutcome::Paradox => Verdict::Fails(FailureReason::Paradox),
    })
}

/// `retreat::Start::dislodged`, looked up for one order: the unit whose move
/// dislodged the order's unit, written out as plain values; `None` where the
/// crate does not list the order as dislodged.
#[verifier::external_body]
pub(crate) fn dislodger_of(start: &Start<'_>, order: &EngineOrder) -> Option<UnitId> {
    let attacker = start.dislodged().get(&order.inner)?;
    let unit_type = match attacker.unit_type {
        diplomacy::UnitType::Army => UnitType::Army,
        diplomacy::UnitType::Fleet => UnitType::Fleet,
    };
    Some(UnitId {
        nation: attacker.nation.short_name().into(),
        unit_type,
        region: attacker.region.short_name().into(),
    })
}

/// `retreat::Start::retreat_destinations`, looked up for the order's unit, and
/// of that `Destinations::available`: the regions the unit may retreat to, in
/// the order of their keys. `None` where the crate lists no destinations for
/// the unit.
#[verifier::external_body]
pub(crate) fn retreat_options(start: &Start<'_>, order: &EngineOrder) -> Option<Vec<String>> {
    let destinations = start.retreat_destinations().get(&order.inner.unit_position())?;
    Some(destinations.available().into_iter().map(|region| region.short_name().into()).collect())
}

} // verus!
