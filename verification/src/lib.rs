//! Receive side of a HackRF One software-defined radio: sample-rate rules, IQ
//! decoding, device start-up and the channel-hopping capture loop, as verified
//! decision procedures. The program around the library performs the USB, clock
//! and channel operations that the library asks for and reports what happened.
pub mod conduct;
pub mod error;
pub mod hertz;
pub mod iq;
pub mod laws;
pub mod model;
pub mod rate;
pub mod scanner;
pub mod source;

pub use error::{ConfigFault, SdrError};
pub use hertz::Hertz;
pub use iq::{i8_to_unit, IqPacket, IqSample};
pub use rate::{resolve_sample_rate, HACKRF_MAX_SAMPLE_RATE_HZ};
pub use scanner::{should_abandon_device, Scanner};
pub use source::{HackRfSource, SourceConfig, Startup};
