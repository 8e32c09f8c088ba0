//! Signing for Bitcoin by several nodes together, none of which holds the private key.
//!
//! Initialization deals presignatures out to the nodes. For each payload every node uses one of
//! them up and gives a partial signature; one node has no connection and passes its share on in
//! files. The coordinator combines the partial signatures, and the Bitcoin side turns the
//! signature into a witness.

pub mod btc_auxiliary;
pub mod bytes;
pub mod coord_runtime;
pub mod curve;
pub mod fifo_queue;
pub mod hex_text;
pub mod initialization;
pub mod message;
pub mod msgpack;
pub mod offline_node;
pub mod ppd_serializer;
pub mod presig_storage;
pub mod signing;
pub mod simulation;
pub mod text;
