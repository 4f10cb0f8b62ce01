//! A dual-stack ICMP echo engine: the echo packet codec and its checksum,
//! the target registry, the per-probe decisions of the sender and the
//! receiver, and the correlator that matches replies to requests.

pub mod checksum;
pub mod icmp;
pub mod pinger;
pub mod correlator;
pub mod stats;
