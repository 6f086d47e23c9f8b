//! Verified core of a registry-indexing pipeline.
//!
//! The library covers the logic of an indexer for an on-chain token
//! registry: decoding the registry's binary account layouts, resolving a
//! registry entry's genesis transaction, recording discovered token/entry
//! pairs in a relational snapshot with dedup invariants, and planning
//! corrective update transactions when curated records diverge from live
//! on-chain state.  All remote calls (ledger gateway, store file) are made
//! by the surrounding application, which hands their results to the
//! functions here as plain values.

use vstd::prelude::*;

pub mod bytes;
pub mod codec;
pub mod genesis;
pub mod indexer;
pub mod launcher;
pub mod reconcile;
pub mod store;

verus! {

/// Default URL of the ledger gateway endpoint.
pub fn default_rpc_url() -> (r: String)
    ensures
        r@ == "https://api.mainnet-beta.solana.com"@,
{
    "https://api.mainnet-beta.solana.com".to_owned()
}

/// Default path of the relational store file.
pub fn default_db_path() -> (r: String)
    ensures
        r@ == "candy-holders.db"@,
{
    "candy-holders.db".to_owned()
}

/// Address of the registry program whose entry accounts are indexed.
pub fn registry_program_id() -> (r: String)
    ensures
        r@ == "metaqbxxUerdq28cj1RbAWkYQm3ybzjb6a8bt518x1s"@,
{
    "metaqbxxUerdq28cj1RbAWkYQm3ybzjb6a8bt518x1s".to_owned()
}

/// Byte offset of the update-authority field inside a registry entry
/// account: it follows the single leading record-kind byte.  Discovery
/// filters candidate accounts by an equality match at this offset.
pub fn authority_filter_offset() -> (r: usize)
    ensures
        r == 1,
{
    1
}

} // verus!
