//! A light wallet toolkit for Zcash: fee computation (ZIP-317), payment
//! planning over transparent, Sapling and Orchard pools, memo handling,
//! chunked memo framing, Merkle witnesses and chain-height searches.
use vstd::prelude::*;

pub mod account;
pub mod address;
pub mod chain;
pub mod contacts;
pub mod data;
pub mod data_split;
pub mod encoding;
pub mod fee;
pub mod hasher;
pub mod keys;
pub mod memo;
pub mod pay;
pub mod rawtx;
pub mod txdetails;
pub mod types;
pub mod uri;
pub mod witness;

verus! {

/// Number of blocks after which an unmined transaction expires.
pub const EXPIRATION_HEIGHT_DELTA: u32 = 50;

/// Marginal fee of one logical action (ZIP-317), in zatoshis.
pub const COST_PER_ACTION: u64 = 5_000;

} // verus!
