//! A client for a marketplace of network services: sellers list services with terms
//! and a price, buyers purchase access tokens, and redeemed tokens let their holders
//! in.
//!
//! The library decides and computes; what talks to the network, the disk and the
//! clock stands around it and hands it plain values.

pub mod address;
pub mod base64_text;
pub mod config;
pub mod dates;
pub mod effects;
pub mod encoding;
pub mod error;
pub mod listings;
pub mod marketplace;
pub mod models;
pub mod network;
pub mod objects;
pub mod offer;
pub mod purchase;
pub mod redemption;
pub mod reports;
pub mod text;
pub mod transaction;
pub mod wallet;
