//! Configurable audio rack: the verified core of a modular audio generator.
//!
//! The library holds the parts of the generator that decide rather than
//! compute samples: how instruments are wired and in which order they are
//! updated, the connection state of instrument ports, the timing of the
//! update loop, the stages of an envelope, and how configured names resolve
//! to ports and parameters.

pub mod connection;
pub mod config;
pub mod connection_order;
pub mod port;
pub mod instrument_ports;
pub mod envelope;
pub mod update_loop;
pub mod names;
pub mod commands;
pub mod instruments;
pub mod instrument_error;
pub mod mixer;
pub mod instrument_config;
pub mod sample_offset;
pub mod rack;
pub mod rack_builder;
