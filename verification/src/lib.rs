//! In-memory replica of limit-order books, fed by a venue's market-data
//! streams. The library holds the verified core: the price-sorted book
//! sides, the snapshot/diff reconciliation state machine, the token-bucket
//! rate-gate model, and the small pure computations around them. The
//! surrounding process (websockets, REST calls, timers, channels) drives
//! these functions and is kept outside the library.

pub mod book;
pub mod config;
pub mod difference;
pub mod hashmap_chunks;
pub mod info;
pub mod latency_meter;
pub mod pair;
pub mod pairs;
pub mod snapshot;
pub mod token_bucket;

pub use book::Book;
pub use book::Order;
pub use book::Side;
pub use pair::Pair;
pub use config::Config;

use vstd::prelude::*;

verus! {

/// A supported trading venue.
#[derive(Debug, Clone, PartialEq, Eq, Hash, Structural)]
pub enum Exchange {
    Binance,
}

/// A venue's market segment.
#[derive(Debug, Clone, PartialEq, Eq, Hash, Structural)]
pub enum Platform {
    Spot,
}

/// Routing key for one venue/platform combination.
pub type Place = (Exchange, Platform);

} // verus!
