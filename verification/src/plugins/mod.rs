//! Transports that the proxy brings along.

pub mod kcp;
