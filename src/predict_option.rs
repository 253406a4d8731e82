//! Bits of the option mask that the prediction engine reads. The conversion
//! and the dispatch hand the mask on without reading it.
use vstd::prelude::*;

verus! {

/// Output the untransformed margin.
pub const OUTPUT_MARGIN: u32 = 0x01;
/// Output the leaf index of each tree.
pub const PRED_LEAF: u32 = 0x02;
/// Output feature contributions.
pub const PRED_CONTRIBS: u32 = 0x04;
/// Output approximate feature contributions.
pub const PRED_APPROX_CONTRIBS: u32 = 0x08;
/// Output feature interaction contributions.
pub const PRED_INTERACTIONS: u32 = 0x10;

} // verus!
