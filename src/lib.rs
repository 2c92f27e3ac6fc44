//! A user-space TCP endpoint: sequence-space arithmetic, the per-connection
//! state machine, and a connection table that routes raw interface frames.
pub mod header;
pub mod seqnum;
pub mod table;
pub mod tcp;
