//! The order in which an ordered map hands out its keys.

use vstd::prelude::*;
use vstd::std_specs::btree::{axiom_increasing_seq_meaning, increasing_seq};
use vstd::std_specs::cmp::OrdSpec;

verus! {

/// Wide keys that a map hands out in increasing order grow from one to the
/// next.
pub proof fn lemma_keys_grow(raw: Seq<&u128>, i: int, j: int)
    requires
        increasing_seq(raw),
        0 <= i < j < raw.len(),
    ensures
        *raw[i] < *raw[j],
{
    axiom_increasing_seq_meaning::<&u128>(raw);
    assert(OrdSpec::cmp_spec(&raw[i], &raw[j]) is Less);
}

/// Thread numbers that a map hands out in increasing order grow from one
/// to the next.
pub proof fn lemma_threads_grow(raw: Seq<&u32>, i: int, j: int)
    requires
        increasing_seq(raw),
        0 <= i < j < raw.len(),
    ensures
        *raw[i] < *raw[j],
{
    axiom_increasing_seq_meaning::<&u32>(raw);
    assert(OrdSpec::cmp_spec(&raw[i], &raw[j]) is Less);
}

} // verus!
