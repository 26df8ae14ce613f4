//! A framework for executing multi-round, multi-party protocols in which
//! every participant may misbehave, producing third-party-verifiable
//! evidence of each deviation.
//!
//! A protocol author implements the [`round::Round`] contract; the
//! [`session::Session`] engine drives one party through the round graph:
//! it signs outgoing bundles ([`message`]), validates incoming ones,
//! collects results per round ([`session::RoundAccumulator`]), inserts the
//! echo-consistency sub-round ([`echo`]) after a round that echo-broadcasts,
//! records everything in the [`transcript`], and turns rejections into
//! self-contained [`evidence`] that anyone can re-verify. [`laws`] states
//! the guarantees that span several of these pieces.
#![verifier::loop_isolation(false)]

pub mod errors;
pub mod round_id;
pub mod utils;
pub mod codec;
pub mod message;
pub mod round;
pub mod echo;
pub mod evidence;
pub mod transcript;
pub mod session;
pub mod laws;
