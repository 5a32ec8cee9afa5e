//! Consistent pagination over a collection that keeps changing.
//!
//! A client walks the whole collection page by page while other clients
//! create, edit and delete entries. The mutation buffer records every change
//! that no walk has delivered yet, freezes those changes into a queue when a
//! walk starts, and hands the queue out one page at a time, so that a walk
//! sees each change once and never sees an entry half edited.
//!
//! The library decides and keeps the books. It does not touch a store or a
//! connection: whoever runs it reads what an operation needs, hands it in, and
//! carries out what the operation asks for.
//!
//! - [`maybe`]: a field that is left out, cleared or set.
//! - [`models`]: entries and partial updates, and how updates coalesce.
//! - [`order`] and [`entry`]: the order of ids and of the entries of a queue.
//! - [`id_set`]: the hash set of pending ids.
//! - [`mutation_manager`] and [`page`]: the buffer and the pages it delivers.
//! - [`pagination`] and [`cursor`]: what a walk is told, and where it stands.
//! - [`request`], [`head`], [`route`], [`response`] and [`handlers`]: requests,
//!   what they ask for, and what their handlers decide.
//! - [`laws`] and [`staging`]: what holds of the buffer, alone and together
//!   with the staging area.

pub mod cursor;
pub mod entry;
pub mod handlers;
pub mod head;
pub mod id_set;
pub mod laws;
pub mod maybe;
pub mod models;
pub mod mutation_manager;
pub mod order;
pub mod page;
pub mod pagination;
pub mod request;
pub mod response;
pub mod route;
pub mod staging;
