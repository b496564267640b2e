//! Verified receive-side contracts of an attended FT8/WSPR station service.
pub mod text;
pub mod decimal;
pub mod audio;
pub mod domain;
pub mod operations;
pub mod protocol;
pub mod api;
pub mod ipc;
pub mod cli;
pub mod daemon;
