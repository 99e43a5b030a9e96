//! Keeps a WireGuard tunnel's peer endpoint in step with a dynamic DNS name.
//!
//! The library holds the logic: reading the live endpoint out of the
//! tunnel's status text, reading the peer's domain out of its configuration,
//! resolving that domain, and the per-cycle decision whether to restart the
//! tunnel. The program around it runs the commands, sleeps and logs.
pub mod text;
pub mod resolve;
pub mod monitor;
