//! A tag registry backed by an economic bond.
//!
//! An identified principal claims a named tag by locking a refundable deposit
//! in a ledger, and later reclaims that deposit by destroying the tag it
//! created. Indices are allocated by a monotonically increasing counter and
//! are never reused, even after the tag at an index is destroyed.
//!
//! The registry runs one transition at a time to completion. It is not safe
//! under concurrent multi-writer execution: reserving the deposit and
//! writing the tag record are two separate calls with no cross-system lock,
//! so a host with real parallelism must serialize transitions or wrap the
//! two steps in one serializable transaction.

pub mod laws;
pub mod ledger;
pub mod registry;
pub mod weights;

pub use ledger::AccountBalance;
pub use ledger::InsufficientFunds;
pub use ledger::Ledger;
pub use registry::Config;
pub use registry::Error;
pub use registry::Event;
pub use registry::Pallet;
pub use registry::Tag;
pub use weights::SubstrateWeight;
pub use weights::Weight;
pub use weights::WeightInfo;
