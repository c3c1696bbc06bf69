//! Verified core of a graphical front end for `iperf3`: the parsing of its
//! streaming text output into events, the command lines for client and server
//! runs, the messages about the process, and the decisions the interface takes
//! on each event.
use vstd::prelude::*;

pub mod config;
pub mod messages;
pub mod monitor;
pub mod parser;
pub mod rate;
pub mod text;

pub use config::{client_args, server_args, ClientConfig, IpVersion, ServerConfig};
pub use parser::{Event, OutputParser};
pub use rate::{parse_bandwidth_mbps, Rate, RateUnit};

verus! {

} // verus!
