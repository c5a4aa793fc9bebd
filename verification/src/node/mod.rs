//! The node: keeps blobs that are handed to it over HTTP, and passes them on to the network.
pub mod blob_store;
pub mod bridge;
pub mod config;
pub mod custody;
pub mod network;
