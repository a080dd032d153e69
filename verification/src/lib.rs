//! Ownership bookkeeping for the handles of a mail-indexing engine.
//!
//! The engine hands out addresses of objects that it allocates and that must be
//! given back to it, each exactly once and never before the objects made from
//! it. This crate keeps the books: which handle is alive, who owns it, who has
//! borrowed it, and which engine calls are due when an owner lets go. It makes
//! no engine call itself; the caller performs them and reports what came back.
//!
//! - [`token`]: the kinds of resource, and the three ways to hold one.
//! - [`slot`] and [`ledger`]: the record of each resource, what it means for
//!   the records to be in order, and the operations that enter a resource and
//!   let go of one.
//! - [`laws`]: what follows for every ledger that is in order.
//! - [`cursor`]: the state of a single-pass iterator.
//! - [`database`], [`directory`], [`filenames`], [`query`], [`messages`],
//!   [`message`], [`tags`], [`threads`], [`thread`]: a typed handle for each
//!   kind of resource.
//! - [`error`] and [`sort`]: the failures and the sort orders of the engine.

pub mod cursor;
pub mod database;
pub mod directory;
pub mod error;
pub mod filenames;
pub mod laws;
pub mod ledger;
pub mod message;
pub mod messages;
pub mod query;
pub mod slot;
pub mod sort;
pub mod tags;
pub mod thread;
pub mod threads;
pub mod token;
