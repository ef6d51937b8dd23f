//! Small numeric helpers shared by the allocation planner and its callers.

use vstd::prelude::*;
use vstd::arithmetic::div_mod::{lemma_fundamental_div_mod, lemma_mod_multiples_basic};

verus! {

/// The least multiple of `alignment` that is `>= value`.
pub open spec fn spec_align_up(value: int, alignment: int) -> int
    recommends
        0 < alignment,
{
    ((value + alignment - 1) / alignment) * alignment
}

pub proof fn lemma_align_up(value: int, alignment: int)
    requires
        0 <= value,
        0 < alignment,
    ensures
        spec_align_up(value, alignment) % alignment == 0,
        value <= spec_align_up(value, alignment) < value + alignment,
{
    let q = (value + alignment - 1) / alignment;
    lemma_fundamental_div_mod(value + alignment - 1, alignment);
    lemma_mod_multiples_basic(q, alignment);
}

/// Round `value` up to the next multiple of `alignment`.
pub fn align_up(value: u64, alignment: u64) -> (r: u64)
    requires
        0 < alignment,
        value + alignment - 1 <= u64::MAX,
    ensures
        r == spec_align_up(value as int, alignment as int),
        r % alignment == 0,
        value <= r < value + alignment,
{
    proof {
        lemma_align_up(value as int, alignment as int);
    }
    let sum = value + (alignment - 1);
    (sum / alignment) * alignment
}

/// What `clamp` returns: `value` pressed into `[lo, hi]`, with `lo` winning
/// when the two bounds cross.
pub open spec fn spec_clamp(value: u32, lo: u32, hi: u32) -> u32 {
    let capped: u32 = if value < hi { value } else { hi };
    if capped > lo { capped } else { lo }
}

/// Clamp `value` to at most `max`, then to at least `min`.
pub fn clamp(value: u32, min: u32, max: u32) -> (r: u32)
    ensures
        r == spec_clamp(value, min, max),
{
    let capped = if value < max { value } else { max };
    if capped > min { capped } else { min }
}

/// The largest element of a non-empty slice.
pub fn max_of_slice(data: &[u64]) -> (r: u64)
    requires
        data@.len() > 0,
    ensures
        forall|i: int| 0 <= i < data@.len() ==> data@[i] <= r,
        exists|i: int| 0 <= i < data@.len() && data@[i] == r,
{
    let mut best = data[0];
    let mut k: usize = 1;
    while k < data.len()
        invariant
            1 <= k <= data@.len(),
            forall|i: int| 0 <= i < k ==> data@[i] <= best,
            exists|i: int| 0 <= i < k && data@[i] == best,
        decreases data@.len() - k,
    {
        if data[k] > best {
            best = data[k];
        }
        k = k + 1;
    }
    best
}

/// Append the NUL terminator that C-style string consumers expect.
pub fn null_terminated_str(s: &str) -> (r: String)
    ensures
        r@ == s@ + seq!['\0'],
{
    proof {
        reveal_strlit("\0");
    }
    let mut out = s.to_owned();
    out.append("\0");
    out
}

} // verus!
