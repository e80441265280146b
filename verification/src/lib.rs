//! Signing core of a hardware-wallet application.
//!
//! An incremental, suspendable parser engine for length-prefixed,
//! variant-tagged binary encodings (`schema`, `engine`), the concrete
//! wire encodings and semantic transaction validation (`payload`,
//! `txschema`, `txcheck`), and the command dispatcher that holds the
//! single operation slot and drives the approval and signing
//! pipelines (`interface`, `dispatch`). Everything that talks to the
//! outside — transport, key derivation, hashing, signing, display —
//! lives beyond the `Action`/`Event` boundary of the dispatcher.
pub mod cursor;
pub mod dispatch;
pub mod engine;
pub mod format;
pub mod interface;
pub mod menu;
pub mod payload;
pub mod respbuf;
pub mod schema;
pub mod txcheck;
pub mod txschema;
pub mod utils;
