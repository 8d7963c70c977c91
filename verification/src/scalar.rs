//! Scalars as the crate carries them.

use vstd::prelude::*;

verus! {

/// The raw bits of a scalar. The crate moves scalars and never computes
/// with them; all bits zero stand for zero.
pub type ScalarBits = u32;

/// The scalar zero.
pub const ZERO: ScalarBits = 0;

} // verus!
