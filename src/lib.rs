//! Harvests theatre listings, keeps them in a store, and keeps one discussion
//! thread per show up to date in each subscribed group chat.
//!
//! The modules hold the logic only: fetching documents, talking to the
//! database and to the chat platform is left to the caller, which hands the
//! results in as plain values.

pub mod models;

pub mod error;

pub mod text;

pub mod clock;

pub mod scrape;

pub mod tables;

pub mod store;

pub mod message;

pub mod polls;

pub mod icons;

pub mod reconcile;
