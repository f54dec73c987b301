//! What travels over the two RPC surfaces: commit delivery and raw
//! transactions.

pub mod rawtx;
