//! Library core of a tool that keeps emulator data in sync between two machines.
pub mod text;
pub mod config;
pub mod sync;
pub mod ryujinx;
pub mod cli;
