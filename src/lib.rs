//! Reliable filesystem decisions for a disk-backed object store.
//!
//! The library holds the logic that sits between the storage engine and the
//! raw filesystem: validating path names, filtering directory listings,
//! classifying object directories, and the bounded-retry state machines that
//! create directory trees and rename objects. The filesystem calls themselves
//! are performed by the caller, who feeds each outcome back in.
pub mod classify;
pub mod listing;
pub mod mkdir;
pub mod ops;
pub mod paths;
pub mod rename;
pub mod validate;
