//! Rooms and messages kept in step with an append-only, slot-addressed record store.
//!
//! The store is reached through calls that the surrounding program performs; the
//! decisions between two calls are the verified functions of this crate.

pub mod components;
pub mod pages;
pub mod service;
