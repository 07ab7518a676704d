//! Reliable message queues of a validator.
//!
//! A queue takes the external messages that full nodes send, exchanges them with the other
//! validators of its catchain, gives them to the collator in the order of their timestamps, and
//! tells the full nodes what became of them. A manager holds the queue of the current session and
//! those of the next ones, and hands unfinished messages over to them.
//!
//! The modules whose names begin with `laws_` state what holds of several operations together.
pub mod collation;
pub mod collation_order;
pub mod collation_set;
pub mod digests;
pub mod error;
pub mod forward;
pub mod ident;
pub mod laws_collation;
pub mod laws_forward;
pub mod laws_manager;
pub mod laws_poll;
pub mod laws_queue;
pub mod laws_response;
pub mod laws_status;
pub mod laws_text;
pub mod manager;
pub mod message;
pub mod message_queue;
pub mod poll;
pub mod queue_impl;
pub mod response;
pub mod status;
pub mod text;
