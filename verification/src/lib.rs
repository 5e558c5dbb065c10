//! Confirmation pipeline for likely typosquats in a package registry.
//!
//! Given a popular package name that a newly published package resembles,
//! the library decides whether the resemblance is a genuine abuse signal:
//! the structural confirmation (a package cannot squat itself, an author
//! cannot squat their own package) is refined by an optional semantic
//! similarity gate over package descriptions and by an allow-list of
//! known-acceptable coincidences. The library also owns the read-only
//! corpus of trusted packages, its lookup telemetry, and the exact duration
//! arithmetic behind the "recently updated" store query.

mod config;
mod corpus;
mod counters;
mod duration;
mod record;
mod text;

pub use config::{
    parse_lookback, parsed_duration, spec_allowed, spec_gate_config, spec_similarity_threshold,
    Config, ConfigError, SemanticGate, DEFAULT_SIMILARITY_THRESHOLD, DEFAULT_TOP_CRATES,
    SIMILARITY_SCALE,
};
pub use corpus::{
    confirm_with_score, lemma_allowlist_suppresses_only, rows_map, snapshot_contains,
    snapshot_from_rows, snapshot_key_at, snapshot_map, spec_confirm, spec_possible_squat,
    unique_keys, Error, SimilarityEngine, TopCrates,
};
pub use counters::{count_hits, lemma_lookup_totals, spec_after_lookups, Counters};
pub use duration::{
    duration_to_interval, interval_to_duration, lemma_duration_interval_round_trip,
    lemma_interval_duration_round_trip, Dur, Interval, IntervalError,
};
pub use record::{authors_set, desc_view, raw_view, spec_shared_authors, Krate, KrateView, RawKrate};
