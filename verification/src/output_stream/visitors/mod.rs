//! Bundled visitors covering the most common consumption patterns.

/// Visitors that retain observed output in a sink.
pub mod collect;

/// Visitors that observe output without retaining it.
pub mod inspect;

/// Visitor that waits for a single matching line.
pub mod wait;

/// Visitors that forward observed output to a writer.
pub mod write;
