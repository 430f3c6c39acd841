//! scoutty: probe a terminal's capabilities by sending escape sequences and
//! reading back what it answers.
//!
//! The library holds the logic: the reply parser, the probes and how they
//! read replies, the selection of probes, and the reports.  Terminal I/O
//! lives in the program around it.
pub mod text;
pub mod hex;
pub mod vt;
pub mod parser;
pub mod probe;
pub mod probes;
pub mod session;
pub mod output;
pub mod pager;
