//! Decoding of captured Ethernet II frames into typed protocol headers:
//! the link layer, IPv4 / IPv6 with the IPv6 extension chain, and TCP / UDP.
pub mod network;
pub mod app;
