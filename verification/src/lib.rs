//! Verified core logic of the Desmos smart contracts: coin bookkeeping, tipping,
//! POAP minting, Remarkables, DTag auctions, tokenomics and post filtering.
//!
//! Every contract is modelled as plain state plus handlers that take the
//! values read from the chain (addresses already validated, query answers)
//! and return the new state together with the response to emit.
use vstd::prelude::*;

pub mod text;
pub mod coins;
pub mod outside;
pub mod chain;
pub mod tips;
pub mod social_tips;
pub mod poap;
pub mod poap_v2;
pub mod poap_event;
pub mod remarkables;
pub mod poap_manager;
pub mod dtag_auctions;
pub mod dtag_auctioneer;
pub mod tokenomics;
pub mod filter_posts;

verus! {
} // verus!
