//! Discovers new music from a listener's recent history on a source catalog
//! and turns the discoveries into a playlist on a target catalog.
//!
//! The verified core covers the three hard parts: the discovery engine that
//! builds a bounded, artist-deduplicated recommendation list; the loopback
//! authorization-code exchange (request-line parsing, query parsing,
//! credential encoding); and the reconciliation logic that resolves
//! recommendations to track identifiers and batches playlist writes.

pub mod scan;

pub mod percent;

pub mod auth;

pub mod discover;

pub mod playlist;
