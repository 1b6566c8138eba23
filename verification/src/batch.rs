//! A batch of order descriptors, read one by one.
//!
//! A descriptor that cannot be read is kept with its error and takes no part
//! in the adjudication; it never stops the others from being read. The same
//! holds of a descriptor whose unit stands in a province where an earlier
//! descriptor has already placed one: the orders of a batch are given to units
//! in different provinces.

use crate::order::{
    one_unit_per_province, order_views, read_order, reading, refusal_fits, OrderView, ParsedOrder,
};
use crate::outcome::OrderError;
use crate::region::{province, same_province};
use crate::text::texts;
use vstd::prelude::*;

verus! {

/// What became of one descriptor, as plain values.
pub enum SlotView {
    Accepted { index: int },
    Rejected { text: Seq<char>, error: OrderError },
}

/// What became of one descriptor of a batch.
#[derive(Debug)]
pub enum Slot {
    /// The descriptor was read; its order stands at `index` among the orders of the batch.
    Accepted { index: usize },
    /// The descriptor was rejected: it adds no order to the batch.
    Rejected { text: String, error: OrderError },
}

impl View for Slot {
    type V = SlotView;

    open spec fn view(&self) -> SlotView {
        match self {
            Slot::Accepted { index } => SlotView::Accepted { index: *index as int },
            Slot::Rejected { text, error } => SlotView::Rejected { text: text@, error: *error },
        }
    }
}

/// A batch as plain values.
pub struct BatchView {
    pub slots: Seq<SlotView>,
    pub orders: Seq<OrderView>,
}

impl BatchView {
    /// Every accepted slot points at an order of the batch, and no two orders
    /// of the batch are given to units in the same province.
    pub open spec fn well_formed(self) -> bool {
        &&& forall|i: int|
            0 <= i < self.slots.len() ==> (#[trigger] self.slots[i] matches SlotView::Accepted {
                index,
            } ==> 0 <= index < self.orders.len())
        &&& one_unit_per_province(self.orders)
    }
}

/// The descriptors of one turn: a slot for each, in the order given, and the
/// orders read from them, in the same order.
pub struct Batch {
    pub slots: Vec<Slot>,
    pub orders: Vec<ParsedOrder>,
}

impl View for Batch {
    type V = BatchView;

    open spec fn view(&self) -> BatchView {
        BatchView {
            slots: Seq::new(self.slots@.len(), |i: int| self.slots@[i]@),
            orders: order_views(self.orders@),
        }
    }
}

/// Whether one of the orders is given to a unit in the province of the region.
pub open spec fn holds_province(orders: Seq<OrderView>, region: Seq<char>) -> bool {
    exists|k: int|
        0 <= k < orders.len() && province(#[trigger] orders[k].unit.region) == province(region)
}

/// The order that a descriptor adds to the orders read before it: the order
/// it reads as, unless one of those orders is given to a unit in the same
/// province; `None` where it adds none.
pub open spec fn admitted(text: Seq<char>, before: Seq<OrderView>) -> Option<OrderView> {
    match reading(text) {
        Some(order) => if holds_province(before, order.unit.region) {
            None
        } else {
            Some(order)
        },
        None => None,
    }
}

/// The orders read from a list of descriptors: those that the descriptors
/// add one after the other, in the order of the list.
pub open spec fn accepted(list: Seq<Seq<char>>) -> Seq<OrderView>
    decreases list.len(),
{
    if list.len() == 0 {
        Seq::empty()
    } else {
        let before = accepted(list.drop_last());
        match admitted(list.last(), before) {
            Some(order) => before.push(order),
            None => before,
        }
    }
}

/// Whether the error is the one that a descriptor is rejected with which
/// adds no order: `ProvinceTaken` where it can be read, and else the error
/// that fits its refusal.
pub open spec fn rejection_fits(text: Seq<char>, error: OrderError) -> bool {
    match reading(text) {
        Some(_) => error == OrderError::ProvinceTaken,
        None => refusal_fits(text, error),
    }
}

/// Whether `slot` is what a descriptor becomes that follows the descriptors
/// `before` in its list: accepted at the next free index where it adds an
/// order, else rejected with its own text and the error that fits.
pub open spec fn reads_as(text: Seq<char>, before: Seq<Seq<char>>, slot: SlotView) -> bool {
    match admitted(text, accepted(before)) {
        Some(_) => slot == (SlotView::Accepted { index: accepted(before).len() as int }),
        None => slot matches SlotView::Rejected { text: kept, error } && kept == text
            && rejection_fits(text, error),
    }
}

/// Whether `batch` is what the list of descriptors reads as.
pub open spec fn read_from(list: Seq<Seq<char>>, batch: BatchView) -> bool {
    &&& batch.slots.len() == list.len()
    &&& batch.orders == accepted(list)
    &&& forall|i: int|
        0 <= i < list.len() ==> reads_as(list[i], list.take(i), #[trigger] batch.slots[i])
}

/// An accepted descriptor's slot points at the order that the descriptor adds.
pub proof fn lemma_accepted_order(list: Seq<Seq<char>>, i: int)
    requires
        0 <= i < list.len(),
        admitted(list[i], accepted(list.take(i))) is Some,
    ensures
        accepted(list.take(i)).len() < accepted(list).len(),
        accepted(list)[accepted(list.take(i)).len() as int] == admitted(
            list[i],
            accepted(list.take(i)),
        )->0,
    decreases list.len(),
{
    let shorter = list.drop_last();
    if i == list.len() - 1 {
        assert(list.take(i) =~= shorter);
    } else {
        assert(shorter.take(i) =~= list.take(i));
        lemma_accepted_order(shorter, i);
    }
}

/// No more orders are read than descriptors are given.
pub proof fn lemma_accepted_len(list: Seq<Seq<char>>)
    ensures
        accepted(list).len() <= list.len(),
    decreases list.len(),
{
    if list.len() > 0 {
        lemma_accepted_len(list.drop_last());
    }
}

/// The orders read from a list of descriptors are given to units in
/// different provinces, whatever the list holds.
pub proof fn lemma_accepted_apart(list: Seq<Seq<char>>)
    ensures
        one_unit_per_province(accepted(list)),
    decreases list.len(),
{
    if list.len() > 0 {
        lemma_accepted_apart(list.drop_last());
    }
}

/// Whether one of the orders is given to a unit in the province of the region.
pub fn province_held(orders: &Vec<ParsedOrder>, region: &str) -> (held: bool)
    ensures
        held == holds_province(order_views(orders@), region@),
{
    let mut k: usize = 0;
    while k < orders.len()
        invariant
            k <= orders@.len(),
            forall|j: int|
                0 <= j < k ==> province(#[trigger] order_views(orders@)[j].unit.region)
                    != province(region@),
        decreases orders@.len() - k,
    {
        assert(order_views(orders@)[k as int] == orders@[k as int]@);
        if same_province(orders[k].unit.region.as_str(), region) {
            assert(province(order_views(orders@)[k as int].unit.region) == province(region@));
            return true;
        }
        k = k + 1;
    }
    false
}

impl Batch {
    /// Reads the descriptors of one turn.
    ///
    /// Each descriptor is read by itself. One that cannot be read, or whose
    /// unit stands in a province that an order read before it has taken, is
    /// kept in its slot, with its error; the others are read as if it were
    /// not there.
    pub fn read(order_list: &Vec<String>) -> (batch: Batch)
        ensures
            batch@.well_formed(),
            read_from(texts(order_list@), batch@),
    {
        let ghost list = texts(order_list@);
        let mut slots: Vec<Slot> = Vec::new();
        let mut orders: Vec<ParsedOrder> = Vec::new();
        let mut i: usize = 0;
        proof {
            assert(list.take(0) =~= Seq::empty());
            assert(order_views(orders@) =~= accepted(list.take(0)));
        }
        while i < order_list.len()
            invariant
                i <= order_list@.len(),
                list == texts(order_list@),
                slots@.len() == i,
                order_views(orders@) == accepted(list.take(i as int)),
                forall|j: int|
                    0 <= j < i ==> reads_as(list[j], list.take(j), (#[trigger] slots@[j])@),
                forall|j: int|
                    0 <= j < i ==> ((#[trigger] slots@[j])@ matches SlotView::Accepted { index }
                        ==> 0 <= index < orders@.len()),
            decreases order_list@.len() - i,
        {
            let text = order_list[i].as_str();
            let ghost before = order_views(orders@);
            proof {
                assert(list.take(i + 1).drop_last() =~= list.take(i as int));
                assert(list.take(i + 1).last() == list[i as int]);
                lemma_accepted_len(list.take(i as int));
            }
            match read_order(text) {
                Ok(order) => {
                    if province_held(&orders, order.unit.region.as_str()) {
                        slots.push(
                            Slot::Rejected {
                                text: String::from_str(text),
                                error: OrderError::ProvinceTaken,
                            },
                        );
                    } else {
                        slots.push(Slot::Accepted { index: orders.len() });
                        orders.push(order);
                        assert(order_views(orders@) =~= before.push(order@));
                    }
                },
                Err(error) => {
                    slots.push(Slot::Rejected { text: String::from_str(text), error });
                },
            }
            i = i + 1;
        }
        let batch = Batch { slots, orders };
        proof {
            assert(list.take(list.len() as int) =~= list);
            lemma_accepted_apart(list);
        }
        batch
    }
}

} // verus!
