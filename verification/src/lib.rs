//! Core logic of a local-first, peer-to-peer, ephemeral social network:
//! relay lists, dial planning, connection status, presence, invites,
//! content envelopes and identities.
pub mod api;
pub mod base64url;
pub mod content;
pub mod crypto;
pub mod engine;
pub mod error;
pub mod expiry;
pub mod hex;
pub mod identity;
pub mod invite;
pub mod json;
pub mod p2p;
pub mod shell;
pub mod storage;
pub mod text;
pub mod time;
pub mod uid;
