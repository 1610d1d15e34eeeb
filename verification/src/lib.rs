//! Runtime core of an electric-vehicle dashboard and telemetry controller.
//!
//! The crate decodes bit-packed bus frames into a registry of named
//! parameters, serializes the registry into a bounded telemetry report, and
//! drives a multi-step AT-command state machine that fetches a URL over an
//! unreliable cellular modem, together with the power-cycle escalation policy
//! around it. All state machines and encoders here are pure computations over
//! plain values; the surrounding application performs the actual bus, display
//! and serial I/O.

pub mod bitfield;
pub mod display;
pub mod http;
pub mod log_display;
pub mod modem;
pub mod numfmt;
pub mod parse;
pub mod rat;
pub mod registry;
pub mod report;
pub mod status;

pub use bitfield::CanBitSelection;
pub use http::HttpProcess;
pub use log_display::LogDisplay;
pub use modem::{Sim7600Driver, Sim7600DriverBuffers};
pub use rat::Rat;
pub use registry::{CanFrame, CanMap, Parameter, Registry, ReportMap};
pub use status::{HttpFailReason, HttpResponse, HttpUpdateStatus};
