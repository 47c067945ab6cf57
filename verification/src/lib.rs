//! SCCP (Signaling Connection Control Part) codec per ITU-T Q.711-Q.716.
//!
//! Encoders and decoders for SCCP addresses, Global Titles, Telephony-BCD
//! digits and the connectionless Unitdata messages, each with a contract
//! stated over a mathematical model of its wire format.

pub mod address;
pub mod bcd;
pub mod error;
pub mod global_title;
pub mod message;
pub mod octets;
pub mod text;
pub mod types;
pub mod variable_part;

pub use address::SccpAddress;
pub use error::SccpError;
pub use global_title::{GlobalTitle, GtIndicator};
pub use message::{SccpMessage, UnitData, UnitDataService};
pub use types::{MessageType, ReturnCause, SubsystemNumber};
