//! A client/server key-value store whose connections are secured by an
//! ephemeral key exchange, whose requests are authenticated by self-issued
//! signed tokens, and whose private entries carry per-entry envelope
//! encryption.
//!
//! The pieces, leaves first: [`utils`] holds the hashing primitives and
//! the compact signature used for addressing and signing; [`codec`] the
//! binary wire encoding; [`aead`] and [`rng`] the symmetric cipher and
//! the randomness behind frames and envelopes; [`dh`] the per-connection
//! key exchange and [`kv_session`] the encrypted framing built on it;
//! [`secret`] the long-lived asymmetric identity; [`store`] the
//! per-owner, content-addressed storage engine; [`actions`] the closed
//! set of requests with their client- and server-side behaviour;
//! [`kv_server`] the token check and dispatch; [`kv_request`] the
//! client-side request construction; [`sync`] the reconciliation planner.

pub mod dh;
pub mod errors;
pub mod actions;
pub mod aead;
pub mod codec;
pub mod kv_request;
pub mod kv_server;
pub mod kv_session;
pub mod rng;
pub mod secret;
pub mod store;
pub mod sync;
pub mod utils;

pub use actions::{
    Actions, CatReply, CreateAction, DeleteAction, FetchToken, KVSToken, KeyMeta, ListAction,
    LocalFileMeta, ReadAction, RemoteVersionAction, ReplyCode, UpdateAction,
};
pub use dh::KeyPair;
pub use errors::{KVSError, KVSResult};
pub use kv_session::KVSSession;
pub use secret::Secret;
pub use store::Store;
