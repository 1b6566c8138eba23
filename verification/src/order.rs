//! Order descriptors and how they are read.

use crate::engine::{
    count_words, error_kind, parse_order, parsed_order, whitespace_words, EngineOrder,
};
use crate::outcome::OrderError;
use crate::region::province;
use crate::text::optional_text;
use crate::unit::{UnitId, UnitView};
use vstd::prelude::*;

verus! {

/// What the library reads of an order: the unit it is given to, its canonical
/// text, and the region it moves to if it is a move.
pub struct OrderView {
    pub unit: UnitView,
    pub text: Seq<char>,
    pub destination: Option<Seq<char>>,
}

/// An order that was read from a descriptor.
pub struct ParsedOrder {
    /// The unit the order is given to.
    pub unit: UnitId,
    /// The order in its canonical form.
    pub text: String,
    /// The region the unit is ordered to move to; `None` for an order that is no move.
    pub destination: Option<String>,
    /// The order as the adjudicator holds it.
    pub handle: EngineOrder,
}

impl View for ParsedOrder {
    type V = OrderView;

    open spec fn view(&self) -> OrderView {
        OrderView {
            unit: self.unit@,
            text: self.text@,
            destination: optional_text(self.destination),
        }
    }
}

/// The fewest words a descriptor can have: nation, unit type, region and command.
pub const MIN_WORDS: usize = 4;

/// What a descriptor reads as: its order, or `None` where it has too few words
/// or the parser refuses it.
pub open spec fn reading(text: Seq<char>) -> Option<OrderView> {
    if whitespace_words(text).len() >= MIN_WORDS {
        parsed_order(text)
    } else {
        None
    }
}

/// Whether the error is the one that a descriptor is refused with which
/// cannot be read: `TooFewWords` exactly where the descriptor has fewer than
/// four words, and else a refusal of the parser.
pub open spec fn refusal_fits(text: Seq<char>, error: OrderError) -> bool {
    if whitespace_words(text).len() < MIN_WORDS {
        error == OrderError::TooFewWords
    } else {
        error is Refused
    }
}

/// Whether no two of the orders are given to units in the same province.
pub open spec fn one_unit_per_province(orders: Seq<OrderView>) -> bool {
    forall|i: int, j: int|
        0 <= i < j < orders.len() ==> province(#[trigger] orders[i].unit.region) != province(
            #[trigger] orders[j].unit.region,
        )
}

/// A list of orders as plain values.
pub open spec fn order_views(orders: Seq<ParsedOrder>) -> Seq<OrderView> {
    Seq::new(orders.len(), |k: int| orders[k]@)
}

/// Reads one order descriptor.
///
/// A descriptor of fewer than four words is refused as `TooFewWords` and never
/// reaches the parser. Any other is parsed, and refused exactly where the
/// parser refuses it, with the refusal that the parser gives.
pub fn read_order(text: &str) -> (read: Result<ParsedOrder, OrderError>)
    ensures
        read matches Ok(order) ==> reading(text@) == Some(order@),
        read matches Err(error) ==> reading(text@) is None && refusal_fits(text@, error),
{
    if count_words(text) < MIN_WORDS {
        return Err(OrderError::TooFewWords);
    }
    match parse_order(text) {
        Ok(order) => Ok(order),
        Err(error) => Err(OrderError::Refused(error_kind(&error))),
    }
}

} // verus!
