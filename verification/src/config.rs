//! Per-place engine configuration.
//!
//! Durations are plain millisecond counts; the surrounding process turns
//! them into its timer type.

use vstd::prelude::*;

use crate::Exchange;
use crate::Place;
use crate::Platform;
use crate::pair::Pair;

verus! {

/// Engine configuration for one place: which pairs to replicate, at what
/// depth, and the per-place tuning knobs.
pub struct Config {
    pub place: Place,
    pub book_cap: usize,
    pub pairs: Vec<Pair>,
    pub system: SystemConfig,
}

/// The tuning knobs a place's workers run with.
#[derive(Clone)]
pub struct SystemConfig {
    /// How many pair streams one websocket connection multiplexes.
    pub streams_per_connection: usize,
    /// Pause before reopening a failed connection.
    pub reconnect_delay_ms: u64,
    /// Prefix for every log line of this place.
    pub log_prefix: String,
    /// Venue diff-stream cadence: `"100ms"` or `"1000ms"`.
    pub update_speed: String,
    /// An event older than this feeds the latency meter.
    pub max_latency_ms: u64,
    /// Cadence of the latency meter's aggregate report.
    pub latency_check_interval_ms: u64,
    /// A wall clock behind an event by more than this is logged.
    pub max_latency_error_ms: u64,
}

impl Config {
    /// The defaults a place starts from; the builder methods override
    /// single knobs.
    pub fn new(place: Place, book_cap: usize, pairs: Vec<Pair>) -> (r: Self)
        ensures
            r.place == place,
            r.book_cap == book_cap,
            r.pairs@ == pairs@,
            r.system.streams_per_connection == 128,
            r.system.reconnect_delay_ms == 1000,
            r.system.log_prefix@ == "[binance] [spot]"@,
            r.system.update_speed@ == "1000ms"@,
            r.system.max_latency_ms == 5000,
            r.system.latency_check_interval_ms == 1000,
            r.system.max_latency_error_ms == 100,
    {
        let system = match place {
            (Exchange::Binance, Platform::Spot) => SystemConfig {
                streams_per_connection: 128,
                reconnect_delay_ms: 1000,
                log_prefix: "[binance] [spot]".to_owned(),
                update_speed: "1000ms".to_owned(),
                max_latency_ms: 5000,
                latency_check_interval_ms: 1000,
                max_latency_error_ms: 100,
            },
        };
        Self { place, book_cap, pairs, system }
    }

    #[must_use]
    pub fn streams_per_connection(self, streams_per_connection: usize) -> (r: Self)
        ensures
            r == (Config {
                system: SystemConfig { streams_per_connection, ..self.system },
                ..self
            }),
    {
        let mut c = self;
        c.system.streams_per_connection = streams_per_connection;
        c
    }

    #[must_use]
    pub fn reconnect_delay(self, reconnect_delay_ms: u64) -> (r: Self)
        ensures
            r == (Config { system: SystemConfig { reconnect_delay_ms, ..self.system }, ..self }),
    {
        let mut c = self;
        c.system.reconnect_delay_ms = reconnect_delay_ms;
        c
    }

    #[must_use]
    pub fn log_prefix(self, log_prefix: String) -> (r: Self)
        ensures
            r == (Config { system: SystemConfig { log_prefix, ..self.system }, ..self }),
    {
        let mut c = self;
        c.system.log_prefix = log_prefix;
        c
    }

    #[must_use]
    pub fn update_speed(self, update_speed: String) -> (r: Self)
        ensures
            r == (Config { system: SystemConfig { update_speed, ..self.system }, ..self }),
    {
        let mut c = self;
        c.system.update_speed = update_speed;
        c
    }

    #[must_use]
    pub fn max_latency(self, max_latency_ms: u64) -> (r: Self)
        ensures
            r == (Config { system: SystemConfig { max_latency_ms, ..self.system }, ..self }),
    {
        let mut c = self;
        c.system.max_latency_ms = max_latency_ms;
        c
    }

    #[must_use]
    pub fn latency_check_interval(self, latency_check_interval_ms: u64) -> (r: Self)
        ensures
            r == (Config {
                system: SystemConfig { latency_check_interval_ms, ..self.system },
                ..self
            }),
    {
        let mut c = self;
        c.system.latency_check_interval_ms = latency_check_interval_ms;
        c
    }

    #[must_use]
    pub fn max_latency_error(self, max_latency_error_ms: u64) -> (r: Self)
        ensures
            r == (Config { system: SystemConfig { max_latency_error_ms, ..self.system }, ..self }),
    {
        let mut c = self;
        c.system.max_latency_error_ms = max_latency_error_ms;
        c
    }
}

} // verus!
