//! Transactional core of a tokenized fundraising campaign engine.
//!
//! A project is created with fixed metadata and then moves through a
//! round-based lifecycle: evaluation bonding, a two-phase auction that
//! derives one clearing price from all bids, and contribution rounds that
//! sell the remaining allocation at that price under per-identity caps.
//! The hosting substrate (keyed storage, asset custody, clock, oracle,
//! event sink) is modeled as explicit state and parameters, so every
//! algorithm here is pure, deterministic and verified.
pub mod types;
pub mod ledger;
pub mod collateral;
pub mod auction;
pub mod pallet;
pub mod rounds;
pub mod contribution;
pub mod params;
