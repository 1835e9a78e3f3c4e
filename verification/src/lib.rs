//! Verified core of the Telegramail e-mail transport: header parsing,
//! Autocrypt handling, message assembly, watcher and port-probe state machines.

pub mod deeplink;
pub mod email;
pub mod text;
