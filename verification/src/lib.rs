//! The logic of the wlRIX settings daemon: which files hold which settings, how a value is
//! checked before it is written, how a config file is edited without disturbing the rest of
//! it, and what a change amounts to once it is on disk.
//!
//! Everything here is plain computation over values handed in. Reading and writing files,
//! signaling processes, watching directories and talking to the bus are done by the program
//! around it, which passes the results in and carries the answers out.
pub mod text;
pub mod paths;
pub mod schema;
pub mod apply;
pub mod edit;
pub mod store;
pub mod bus;
pub mod watch;
pub mod cli;
