//! Stable, validated domain vocabulary.
//!
//! IDs use explicit lowercase prefixes and bounded ASCII payloads. Callsigns
//! retain their exact full spelling while exposing a separate normalized base
//! call for policies that explicitly need it. Radio values use integer units.
pub mod callsign;
pub mod ids;
pub mod radio;
pub mod rig_profile;
