//! Escrow-backed payment channels for metered services.
//!
//! Organizations group Services; payers open Channels against a Service and
//! lock `price * calls` in the escrow account; the Service owner redeems funds
//! by presenting payer-signed claims with a strictly increasing counter.
//!
//! Every operation of [`Pallet`] is a deterministic transition on the state
//! store: it returns the ledger movements to perform and the event to emit, or
//! the error that aborts the invocation. The host applies the movements
//! atomically and keeps the previous state if any of them fails.

pub mod types;
pub mod encoding;
pub mod signature;
pub mod settlement;
pub mod pallet;
pub mod laws;
