//! Decoder for single lines of packet-filter firewall log text.
//!
//! A log line is a comma-separated sequence of fields whose shape is
//! context-dependent: the fields after the IP-version marker differ for IPv4
//! and IPv6, and the fields after the transport-protocol name differ for TCP,
//! UDP and unrecognized protocols. [`parse_log`] runs the four stages
//! (filter decision, IP header, IP data, protocol info) and returns either a
//! fully-typed [`FwLog`] or a stage-tagged [`log::LogParseError`].

pub mod field;
pub mod ip;
pub mod log;
pub mod packet_filter;
pub mod protocol;

pub use self::field::SyntaxError;
pub use self::log::parse_log;
pub use self::log::FwLog;
pub use self::packet_filter::Action;
pub use self::packet_filter::Dir;
pub use self::protocol::ProtoInfo;
pub use self::protocol::ProtoName;
