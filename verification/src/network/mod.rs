//! Network schemes: the headers of the datagrams that they read and write.

pub mod icmp;
pub mod ip;
pub mod udp;
