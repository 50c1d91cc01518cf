//! Variable-bitrate control for live media over QUIC.
//!
//! A relay watches the transport of each connection, estimates how much it can
//! carry, and tells the publisher a bitrate ceiling:
//!
//! - [`controller`] turns transport stats into signals. It smooths them with the
//!   [`estimator`], which classifies their [`trend`], and decides with the
//!   [`allocator`], which tests for headroom with the [`prober`].
//! - [`relay`] drives a controller for a connection and decides what to send;
//!   [`datagram`] says what it looks like on the wire.
//! - [`session`], [`lite`] and [`bandwidth`] drive a session and share its
//!   bandwidth estimates.
//! - [`sim`] replays scripted scenarios through a controller.
//!
//! Rates are smoothed in double precision: [`binary64`] computes with doubles,
//! [`value`] and [`rounding`] say what the results are, [`arithmetic_laws`] how far
//! they can be off, and [`decimals`] what the fractional constants stand for.
//!
//! What holds across calls is stated in [`laws`] and [`relay_laws`]. What goes in
//! and what comes out, in plain numbers, is stated in [`estimate_laws`] and
//! [`control_laws`] of the controller, and in [`throughput_laws`] and
//! [`service_laws`] of all that is around it.

pub mod allocator;
pub mod arithmetic_laws;
pub mod bandwidth;
pub mod binary64;
pub mod clock;
pub mod config;
pub mod control_laws;
pub mod controller;
pub mod datagram;
pub mod decimals;
pub mod error;
pub mod estimate_laws;
pub mod estimator;
pub mod laws;
pub mod link;
pub mod lite;
pub mod prober;
pub mod relay;
pub mod relay_laws;
pub mod rounding;
pub mod service_laws;
pub mod session;
pub mod sim;
pub mod throughput_laws;
pub mod trend;
pub mod value;

pub use allocator::AllocatorState;
pub use controller::{BitrateController, BitrateSignal};
pub use estimator::{Estimate, TransportStats};
pub use prober::ProbeRequest;
pub use trend::TrendDirection;
