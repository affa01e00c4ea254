//! Supervision logic for a locally spawned backend server process.
//!
//! The library holds the decision-making core of a process supervisor: it
//! parses the port the child announces on stdout, keeps a bounded ring of
//! recent log lines, interprets HTTP health responses, and drives the
//! lifecycle state machine from `Starting` through `PortDetected` to
//! `Ready` or `Error`.  The surrounding process, file and network I/O is
//! left to the host application, which feeds events into this core and
//! carries its decisions out.

pub mod health;
pub mod logring;
pub mod numfmt;
pub mod port;
pub mod state;
pub mod strutil;
pub mod supervisor;
