//! Error values exchanged between the session engine and protocol code.

use vstd::prelude::*;

verus! {

/// An error indicating a bug in the local code: either in the framework
/// itself or in the protocol implementation driving it.
#[derive(Debug)]
pub struct LocalError {
    pub message: String,
}

impl LocalError {
    /// Wraps a diagnostic message.
    pub fn new(message: String) -> (r: Self)
        ensures
            r.message@ == message@,
    {
        LocalError { message }
    }

    /// The diagnostic message.
    pub fn message(&self) -> (r: &String)
        ensures
            r@ == self.message@,
    {
        &self.message
    }
}

/// An error produced by a remote peer that cannot be attributed to it
/// cryptographically; the peer is banned but no evidence is built.
#[derive(Debug)]
pub struct RemoteError {
    pub message: String,
}

impl RemoteError {
    /// Wraps a human-readable reason.
    pub fn new(message: String) -> (r: Self)
        ensures
            r.message@ == message@,
    {
        RemoteError { message }
    }

    /// The human-readable reason.
    pub fn message(&self) -> (r: &String)
        ensures
            r@ == self.message@,
    {
        &self.message
    }
}

impl Clone for RemoteError {
    fn clone(&self) -> (r: Self)
        ensures
            r.message@ == self.message@,
    {
        RemoteError { message: self.message.clone() }
    }
}

/// A failure to decode a value from its byte representation.
#[derive(Debug)]
pub struct DeserializationError {
    pub message: String,
}

impl DeserializationError {
    /// Wraps a description of the decoding failure.
    pub fn new(message: String) -> (r: Self)
        ensures
            r.message@ == message@,
    {
        DeserializationError { message }
    }

    /// The description of the decoding failure.
    pub fn message(&self) -> (r: &String)
        ensures
            r@ == self.message@,
    {
        &self.message
    }
}

/// An error returned when a stored message part fails the validation that an
/// `Invalid*Message` evidence claims it fails.
#[derive(Debug)]
pub enum MessageValidationError {
    /// A bug in the local code.
    Local(LocalError),
    /// The attached message does not prove what the evidence claims.
    InvalidEvidence(String),
}

/// An error returned when replaying a protocol-level rejection over the
/// messages attached to an evidence.
#[derive(Debug)]
pub enum ProtocolValidationError {
    /// A bug in the local code.
    Local(LocalError),
    /// The attached messages do not prove what the evidence claims.
    InvalidEvidence(String),
}

/// An error that can occur during the validation of an evidence.
#[derive(Debug)]
pub enum EvidenceError {
    /// Indicates a local problem, usually a bug in the library code.
    Local(LocalError),
    /// The evidence is improperly constructed.
    ///
    /// This can indicate many things, such as: messages missing, invalid
    /// signatures, invalid messages, the messages not actually proving the
    /// malicious behavior. See the attached description for details.
    InvalidEvidence(String),
}

} // verus!
