//! Incremental fuzzy-ranking engine for searching a fixed collection of
//! flattened records, with a generation-stamped rescan protocol and a
//! selection state that stays valid as the ranked list changes shape.
pub mod app;
pub mod event;
pub mod record;
pub mod search;
