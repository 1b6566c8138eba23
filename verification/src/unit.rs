//! Units and how they are identified.

use vstd::prelude::*;

verus! {

/// The two kinds of unit on the board.
#[derive(Clone, Copy, Debug, PartialEq, Eq, Structural)]
pub enum UnitType {
    Army,
    Fleet,
}

impl UnitType {
    /// The one-letter name of the unit type: `A` or `F`.
    pub open spec fn letter(self) -> Seq<char> {
        match self {
            UnitType::Army => "A"@,
            UnitType::Fleet => "F"@,
        }
    }

    /// The one-letter name of the unit type.
    pub fn short_name(&self) -> (name: &'static str)
        ensures
            name@ == self.letter(),
    {
        match self {
            UnitType::Army => "A",
            UnitType::Fleet => "F",
        }
    }
}

/// What identifies a unit, as plain text: its nation, its type and the region it stands in.
pub struct UnitView {
    pub nation: Seq<char>,
    pub unit_type: UnitType,
    pub region: Seq<char>,
}

impl UnitView {
    /// The unit written as nation, type letter and region, separated by single spaces.
    pub open spec fn label(self) -> Seq<char> {
        self.nation + " "@ + self.unit_type.letter() + " "@ + self.region
    }
}

/// A unit: the nation that owns it, its type, and the region it stands in.
#[derive(Debug)]
pub struct UnitId {
    pub nation: String,
    pub unit_type: UnitType,
    pub region: String,
}

impl View for UnitId {
    type V = UnitView;

    open spec fn view(&self) -> UnitView {
        UnitView { nation: self.nation@, unit_type: self.unit_type, region: self.region@ }
    }
}

impl UnitId {
    /// A unit from its three parts.
    pub fn new(nation: String, unit_type: UnitType, region: String) -> (unit: UnitId)
        ensures
            unit@ == (UnitView { nation: nation@, unit_type, region: region@ }),
    {
        UnitId { nation, unit_type, region }
    }

    /// A second value for the same unit.
    pub fn duplicate(&self) -> (unit: UnitId)
        ensures
            unit@ == self@,
    {
        UnitId {
            nation: self.nation.clone(),
            unit_type: self.unit_type,
            region: self.region.clone(),
        }
    }

    /// The unit written as nation, type letter and region, as in `FRA A par`.
    pub fn label(&self) -> (text: String)
        ensures
            text@ == self@.label(),
    {
        let mut text = self.nation.clone();
        text.append(" ");
        text.append(self.unit_type.short_name());
        text.append(" ");
        text.append(self.region.as_str());
        text
    }

    /// Whether two values name the same unit.
    pub fn same_as(&self, other: &UnitId) -> (same: bool)
        ensures
            same == (self@ == other@),
    {
        self.nation == other.nation && self.unit_type == other.unit_type && self.region
            == other.region
    }
}

} // verus!
