//! Deterministic operating-coordination contracts: clock sampling, UTC and
//! monotonic mapping, slot arithmetic, health observation, virtual time, and
//! read-only rig observation.
pub mod time;
pub mod receive_clock;
pub mod rig;
pub mod ports;
