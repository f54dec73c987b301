//! Raw transactions as clients submit them and subscribers receive them.

use vstd::prelude::*;

verus! {

/// The raw bytes of one transaction.
pub type Bytes = Vec<u8>;

} // verus!
