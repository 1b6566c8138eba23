//! The closed vocabulary in which a result record explains itself.
//!
//! Every explanation has one fixed code, a short lower-case word, which is what
//! leaves the library. Two explanations have the same code only if they are equal.

use vstd::prelude::*;

verus! {

/// Why an adjudicated order failed.
#[derive(Clone, Copy, Debug, PartialEq, Eq, Structural)]
pub enum FailureReason {
    /// No unit stands where the order is addressed.
    NoUnit,
    /// The unit addressed belongs to another nation.
    ForeignUnit,
    /// The same order was given to the unit more than once.
    MultipleToSameUnit,
    /// No border and no possible convoy leads to the destination.
    UnreachableDestination,
    /// The unit was dislodged.
    Dislodged,
    /// The unit was ordered to move to where it stands.
    MoveToSelf,
    /// The move needed a convoy and none carried it.
    NoPath,
    /// The move would have dislodged a unit of the same nation.
    FriendlyFire,
    /// Another move to the same province was at least as strong.
    Bounced,
    /// The unit attacked head to head and was beaten.
    LostHeadToHead,
    /// The unit in the destination withstood the attack.
    OccupierDefended,
    /// The unit was ordered to support itself.
    SupportingSelf,
    /// The supporting unit cannot reach the province where the support is needed.
    CantReach,
    /// The support was cut by an attack on the supporting unit.
    Cut,
    /// The convoying fleet is not at sea.
    NotAtSea,
    /// The convoy was part of a paradox and is held to have failed.
    Paradox,
}

/// The outcome of an adjudicated order.
#[derive(Clone, Copy, Debug, PartialEq, Eq, Structural)]
pub enum Verdict {
    Succeeds,
    Fails(FailureReason),
}

/// Why the parser refused an order descriptor.
#[derive(Clone, Copy, Debug, PartialEq, Eq, Structural)]
pub enum Refusal {
    InvalidUnitType,
    UnknownCommand,
    BadCoast,
    MalformedMove,
    MalformedRegion,
    MalformedSupport,
    MalformedConvoy,
    /// The parser refused the descriptor for a reason outside this vocabulary.
    Unrecognized,
}

/// Why an order descriptor takes no part in the adjudication.
#[derive(Clone, Copy, Debug, PartialEq, Eq, Structural)]
pub enum OrderError {
    /// The descriptor has fewer than the four words that the shortest order takes.
    TooFewWords,
    /// The parser refused the descriptor.
    Refused(Refusal),
    /// The descriptor can be read, but an earlier descriptor of the turn has
    /// already placed a unit in the province of its unit. Only one unit can
    /// stand in a province.
    ProvinceTaken,
}

/// What a result record says of its order.
#[derive(Clone, Copy, Debug, PartialEq, Eq, Structural)]
pub enum Explanation {
    /// The order was adjudicated, with this outcome.
    Adjudicated(Verdict),
    /// The descriptor was rejected; it took no part in the adjudication.
    Rejected(OrderError),
    /// The adjudication holds no outcome for the order. This is a fault of the
    /// adjudication, not of the order.
    MissingOutcome,
}

impl FailureReason {
    /// The code of the reason.
    pub open spec fn code_spec(self) -> Seq<char> {
        match self {
            FailureReason::NoUnit => "no_unit"@,
            FailureReason::ForeignUnit => "foreign_unit"@,
            FailureReason::MultipleToSameUnit => "multiple_to_same_unit"@,
            FailureReason::UnreachableDestination => "unreachable_destination"@,
            FailureReason::Dislodged => "dislodged"@,
            FailureReason::MoveToSelf => "move_to_self"@,
            FailureReason::NoPath => "no_path"@,
            FailureReason::FriendlyFire => "friendly_fire"@,
            FailureReason::Bounced => "bounced"@,
            FailureReason::LostHeadToHead => "lost_head_to_head"@,
            FailureReason::OccupierDefended => "occupier_defended"@,
            FailureReason::SupportingSelf => "supporting_self"@,
            FailureReason::CantReach => "cant_reach"@,
            FailureReason::Cut => "cut"@,
            FailureReason::NotAtSea => "not_at_sea"@,
            FailureReason::Paradox => "paradox"@,
        }
    }

    /// The code of the reason.
    pub fn code(&self) -> (text: &'static str)
        ensures
            text@ == self.code_spec(),
    {
        match self {
            FailureReason::NoUnit => "no_unit",
            FailureReason::ForeignUnit => "foreign_unit",
            FailureReason::MultipleToSameUnit => "multiple_to_same_unit",
            FailureReason::UnreachableDestination => "unreachable_destination",
            FailureReason::Dislodged => "dislodged",
            FailureReason::MoveToSelf => "move_to_self",
            FailureReason::NoPath => "no_path",
            FailureReason::FriendlyFire => "friendly_fire",
            FailureReason::Bounced => "bounced",
            FailureReason::LostHeadToHead => "lost_head_to_head",
            FailureReason::OccupierDefended => "occupier_defended",
            FailureReason::SupportingSelf => "supporting_self",
            FailureReason::CantReach => "cant_reach",
            FailureReason::Cut => "cut",
            FailureReason::NotAtSea => "not_at_sea",
            FailureReason::Paradox => "paradox",
        }
    }
}

impl Verdict {
    /// Whether the order succeeded.
    pub open spec fn succeeded(self) -> bool {
        self is Succeeds
    }

    /// The code of the outcome: `succeeds`, or that of the reason for which it failed.
    pub open spec fn code_spec(self) -> Seq<char> {
        match self {
            Verdict::Succeeds => "succeeds"@,
            Verdict::Fails(reason) => reason.code_spec(),
        }
    }

    /// Whether the order succeeded.
    pub fn is_success(&self) -> (yes: bool)
        ensures
            yes == self.succeeded(),
    {
        match self {
            Verdict::Succeeds => true,
            Verdict::Fails(_) => false,
        }
    }

    /// The code of the outcome.
    pub fn code(&self) -> (text: &'static str)
        ensures
            text@ == self.code_spec(),
    {
        match self {
            Verdict::Succeeds => "succeeds",
            Verdict::Fails(reason) => reason.code(),
        }
    }
}

impl Refusal {
    /// The code of the refusal.
    pub open spec fn code_spec(self) -> Seq<char> {
        match self {
            Refusal::InvalidUnitType => "invalid_unit_type"@,
            Refusal::UnknownCommand => "unknown_command"@,
            Refusal::BadCoast => "bad_coast"@,
            Refusal::MalformedMove => "malformed_move"@,
            Refusal::MalformedRegion => "malformed_region"@,
            Refusal::MalformedSupport => "malformed_support"@,
            Refusal::MalformedConvoy => "malformed_convoy"@,
            Refusal::Unrecognized => "unrecognized_order"@,
        }
    }

    /// The code of the refusal.
    pub fn code(&self) -> (text: &'static str)
        ensures
            text@ == self.code_spec(),
    {
        match self {
            Refusal::InvalidUnitType => "invalid_unit_type",
            Refusal::UnknownCommand => "unknown_command",
            Refusal::BadCoast => "bad_coast",
            Refusal::MalformedMove => "malformed_move",
            Refusal::MalformedRegion => "malformed_region",
            Refusal::MalformedSupport => "malformed_support",
            Refusal::MalformedConvoy => "malformed_convoy",
            Refusal::Unrecognized => "unrecognized_order",
        }
    }
}

impl OrderError {
    /// The code of the error.
    pub open spec fn code_spec(self) -> Seq<char> {
        match self {
            OrderError::TooFewWords => "too_few_words"@,
            OrderError::Refused(refusal) => refusal.code_spec(),
            OrderError::ProvinceTaken => "province_taken"@,
        }
    }

    /// The code of the error.
    pub fn code(&self) -> (text: &'static str)
        ensures
            text@ == self.code_spec(),
    {
        match self {
            OrderError::TooFewWords => "too_few_words",
            OrderError::Refused(refusal) => refusal.code(),
            OrderError::ProvinceTaken => "province_taken",
        }
    }
}

impl Explanation {
    /// Whether the record's order was adjudicated and succeeded.
    pub open spec fn succeeded(self) -> bool {
        self == Explanation::Adjudicated(Verdict::Succeeds)
    }

    /// The explanation of an order from what the adjudication holds for it.
    pub open spec fn of_outcome(outcome: Option<Verdict>) -> Explanation {
        match outcome {
            Some(outcome) => Explanation::Adjudicated(outcome),
            None => Explanation::MissingOutcome,
        }
    }

    /// The code of the explanation.
    pub open spec fn code_spec(self) -> Seq<char> {
        match self {
            Explanation::Adjudicated(outcome) => outcome.code_spec(),
            Explanation::Rejected(error) => error.code_spec(),
            Explanation::MissingOutcome => "missing_outcome"@,
        }
    }

    /// Whether the record's order was adjudicated and succeeded.
    pub fn is_success(&self) -> (yes: bool)
        ensures
            yes == self.succeeded(),
    {
        match self {
            Explanation::Adjudicated(outcome) => outcome.is_success(),
            _ => false,
        }
    }

    /// The explanation of an order from what the adjudication holds for it.
    pub fn from_outcome(outcome: Option<Verdict>) -> (explanation: Explanation)
        ensures
            explanation == Explanation::of_outcome(outcome),
    {
        match outcome {
            Some(outcome) => Explanation::Adjudicated(outcome),
            None => Explanation::MissingOutcome,
        }
    }

    /// The code of the explanation.
    pub fn code(&self) -> (text: &'static str)
        ensures
            text@ == self.code_spec(),
    {
        match self {
            Explanation::Adjudicated(outcome) => outcome.code(),
            Explanation::Rejected(error) => error.code(),
            Explanation::MissingOutcome => "missing_outcome",
        }
    }
}

/// What tells one code from every other: its length, its first and its last character.
spec fn mark(code: Seq<char>) -> (nat, char, char) {
    (code.len(), code.first(), code.last())
}

/// The code tells the explanation: two explanations with the same code are equal.
pub proof fn lemma_code_tells_explanation(a: Explanation, b: Explanation)
    requires
        a.code_spec() == b.code_spec(),
    ensures
        a == b,
{
    reveal_strlit("no_unit");
    reveal_strlit("foreign_unit");
    reveal_strlit("multiple_to_same_unit");
    reveal_strlit("unreachable_destination");
    reveal_strlit("dislodged");
    reveal_strlit("move_to_self");
    reveal_strlit("no_path");
    reveal_strlit("friendly_fire");
    reveal_strlit("bounced");
    reveal_strlit("lost_head_to_head");
    reveal_strlit("occupier_defended");
    reveal_strlit("supporting_self");
    reveal_strlit("cant_reach");
    reveal_strlit("cut");
    reveal_strlit("not_at_sea");
    reveal_strlit("paradox");
    reveal_strlit("succeeds");
    reveal_strlit("too_few_words");
    reveal_strlit("invalid_unit_type");
    reveal_strlit("unknown_command");
    reveal_strlit("bad_coast");
    reveal_strlit("malformed_move");
    reveal_strlit("malformed_region");
    reveal_strlit("malformed_support");
    reveal_strlit("malformed_convoy");
    reveal_strlit("unrecognized_order");
    reveal_strlit("missing_outcome");
    reveal_strlit("province_taken");
    assert(mark(a.code_spec()) == mark(b.code_spec()));
}

} // verus!
