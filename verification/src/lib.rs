//! Watches the media players on a desktop session bus and keeps one display
//! line per player up to date.
//!
//! The verified core is split into:
//! - [`names`]: the well-known bus-name namespace and roster filtering,
//! - [`title`]: the fallback policy that derives a display title from raw
//!   metadata,
//! - [`snapshot`]: per-player display snapshots and their line rendering,
//! - [`mux`]: the event multiplexer that fans independent sources into one
//!   tagged event sequence, with epoch guards against stale subscriptions,
//! - [`reconciler`]: the roster reconciler that rebuilds the subscription set
//!   on membership changes and refreshes snapshots on state changes.
//!
//! The bus transport itself (connection, signal subscription, property
//! decoding) is asynchronous I/O and lives outside this crate; it hands the
//! library plain values and takes plain values back.

pub mod names;
pub mod title;
pub mod snapshot;
pub mod mux;
pub mod reconciler;
