use crate::text::{decimal, usize_text};
use vstd::prelude::*;
use vstd::string::StringExecFns;

verus! {

/// The coordinates written out in order, separated by a comma and a space.
pub open spec fn coords_text(nums: Seq<usize>) -> Seq<char>
    decreases nums.len(),
{
    if nums.len() == 0 {
        Seq::empty()
    } else if nums.len() == 1 {
        decimal(nums[0] as nat)
    } else {
        coords_text(nums.drop_last()) + ", "@ + decimal(nums.last() as nat)
    }
}

/// The coordinates as text, such as `2, 1`.
pub fn get_printable_coords(nums: &Vec<usize>) -> (r: String)
    ensures
        r@ == coords_text(nums@),
{
    let mut out = String::new();
    let mut j: usize = 0;
    while j < nums.len()
        invariant
            j <= nums@.len(),
            out@ == coords_text(nums@.take(j as int)),
        decreases nums@.len() - j,
    {
        if j > 0 {
            out.append(", ");
        }
        let t = usize_text(nums[j]);
        out.append(t.as_str());
        proof {
            assert(nums@.take(j + 1).drop_last() =~= nums@.take(j as int));
            if j == 0 {
                assert(out@ =~= coords_text(nums@.take(1)));
            } else {
                assert(out@ =~= coords_text(nums@.take(j + 1)));
            }
        }
        j = j + 1;
    }
    assert(nums@.take(j as int) =~= nums@);
    out
}

} // verus!
