//! Core of a log collection daemon: the framing protocol that local clients
//! speak, the routing of decoded records to output sinks, and the sinks' own
//! state machines. Everything here is free of I/O; a host program performs
//! the actions that these types ask for and reports back what happened.

pub mod log_def;
pub mod msg_proc;
pub mod msg_sink;
pub mod msg_srv;
pub mod pipeline;
pub mod prot_handler;
pub mod prot_laws;
pub mod queue;
