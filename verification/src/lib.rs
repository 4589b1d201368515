//! Room allocation engine for shared student housing.
//!
//! The library decides whether an applicant may occupy a room (eligibility),
//! keeps every room's occupancy within its capacity (the capacity ledger),
//! drives each application from `pending` to a terminal outcome (the
//! workflow), and combines the three to assign rooms automatically (the
//! orchestrator). All state lives in an in-memory store owned by
//! [`engine::AllocationEngine`]; transports, credentials and persistence are
//! collaborators outside this crate and hand the engine plain values.

pub mod application;
pub mod application_repo;
pub mod claims;
pub mod config;
pub mod counting;
pub mod engine;
pub mod errors;
pub mod ledger;
pub mod matching;
pub mod profile;
pub mod profile_repo;
pub mod room;
pub mod room_repo;
pub mod stats;
pub mod types;
pub mod user;
pub mod user_repo;
