//! The data model: identifiers, transactions, blocks and committed sub-DAGs.

pub mod block;
pub mod primitives;
pub mod subdag;
pub mod transaction;
