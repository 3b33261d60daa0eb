//! Translation and supervision core of a mining proxy that lets legacy
//! line-protocol devices work against a pool speaking the binary protocol.
//!
//! The core is a set of state machines that do no I/O themselves. Each takes
//! an event and says what is to be done:
//!
//! - `upstream`: the client of the pool, the one writer of the shared target;
//! - `bridge`: which job notifications go out and which shares go up;
//! - `downstream`: the session of one device;
//! - `vardiff`: the difficulty loop of one device;
//! - `startup` and `supervisor`: how the process comes up and when it ends.
//!
//! `extranonce` partitions the extranonce space among the sessions, `target`
//! holds the difficulty threshold and the lock that shares it, `compact`
//! relates a target to its compact form, `messages` and `status` hold the
//! plain data that travels between the components.

pub mod bridge;
pub mod compact;
pub mod downstream;
pub mod error;
pub mod extranonce;
pub mod messages;
pub mod startup;
pub mod status;
pub mod supervisor;
pub mod target;
pub mod upstream;
pub mod vardiff;
