//! Port-activity watching: which TCP and UDP ports receive traffic, reported
//! once per port and aggregation window.
//!
//! - [`parse`] reads the ports to watch from text, [`port`] writes them.
//! - [`frame`] reads the destination port out of a captured frame.
//! - [`port_set`] keeps a set of ports, one bit per port, in the bit vectors
//!   of [`bits`].
//! - [`watcher`] decides, event by event, which port to announce, and
//!   [`trace`] states what holds of its announcements over time.
//! - [`round_trip`] shows that ports written as text read back unchanged.

pub mod bits;
pub mod frame;
pub mod parse;
pub mod port;
pub mod port_set;
pub mod round_trip;
pub mod trace;
pub mod watcher;

pub use frame::decode;
pub use parse::{parse_ports, ParsePortError, ParsePortErrorKind};
pub use port::PortInfo;
pub use port_set::PortSet;
pub use watcher::{CaptureEvent, PortWatcher, WatcherState};
