//! Scratchsmith: pack a prebuilt dynamic Linux ELF binary into a minimal,
//! daemonless `FROM scratch` OCI image.
//!
//! This crate holds the verified core of the pack pipeline: the ld.so search-order
//! emulation, staging plans, hardening analysis, policy gates and report rendering.
//! Everything that touches the host (files, processes, the network) is driven from
//! the outside and hands plain values to these functions.

pub mod text;
pub mod paths;
pub mod resolver;
pub mod elf;
pub mod lint;
pub mod supplychain;
pub mod stager;
pub mod image;
pub mod pack;
pub mod report;
pub mod registry;
pub mod graph;
pub mod unpack;
pub mod diff;
pub mod config;
pub mod options;
pub mod pipeline;
pub mod doctor;
pub mod tarball;
