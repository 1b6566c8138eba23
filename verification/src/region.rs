//! Region names.
//!
//! A region is named by its province. Where a province has more than one
//! coast, each coast is a region of its own, named by the province and the
//! coast in round brackets, as in `spa(nc)`. Only one unit can stand in a
//! province, whichever of its regions it stands in.

use vstd::prelude::*;

verus! {

/// How many characters of the region's name stand before its first opening
/// bracket: all of them where it has none.
pub open spec fn province_len(region: Seq<char>) -> nat
    decreases region.len(),
{
    if region.len() == 0 || region.first() == '(' {
        0
    } else {
        1 + province_len(region.drop_first())
    }
}

/// The province of a region: its name up to the first opening bracket.
pub open spec fn province(region: Seq<char>) -> Seq<char> {
    region.take(province_len(region) as int)
}

/// The province's name ends at the first opening bracket, or with the
/// region's name where there is none.
pub proof fn lemma_province_len(region: Seq<char>, end: int)
    requires
        0 <= end <= region.len(),
        forall|j: int| 0 <= j < end ==> region[j] != '(',
        end == region.len() || region[end] == '(',
    ensures
        province_len(region) == end,
    decreases end,
{
    if end > 0 {
        let rest = region.drop_first();
        assert forall|j: int| 0 <= j < end - 1 implies rest[j] != '(' by {
            assert(rest[j] == region[j + 1]);
        }
        lemma_province_len(rest, end - 1);
    }
}

/// The province of a region.
pub fn province_of(region: &str) -> (name: &str)
    ensures
        name@ == province(region@),
{
    let len = region.unicode_len();
    let mut end: usize = 0;
    while end < len && region.get_char(end) != '('
        invariant
            len == region@.len(),
            end <= len,
            forall|j: int| 0 <= j < end ==> region@[j] != '(',
        decreases len - end,
    {
        end = end + 1;
    }
    proof {
        lemma_province_len(region@, end as int);
    }
    region.substring_char(0, end)
}

/// Whether two regions lie in the same province.
pub fn same_province(a: &str, b: &str) -> (same: bool)
    ensures
        same == (province(a@) == province(b@)),
{
    crate::text::same_text(province_of(a), province_of(b))
}

} // verus!
