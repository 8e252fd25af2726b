//! Enriched channels for communication between threads.
//!
//! - [`two_way::channel()`] gives two symmetric [`two_way::Communicator`]s that can both send
//!   and receive.
//! - [`acknowledge::channel()`] gives a [`acknowledge::Speaker`] that sends to a
//!   [`acknowledge::Listener`], which answers each received payload with an acknowledgement.
//! - [`supplement::channel()`] gives a multi-producer, single-consumer channel whose sending side
//!   enriches the data (a [`supplement::SendSupplementer`]) and whose receiving side hands each
//!   message to an [`supplement::EventAccepter`].
pub mod acknowledge;
mod debug_text;
mod pipe;
pub mod supplement;
pub mod two_way;
