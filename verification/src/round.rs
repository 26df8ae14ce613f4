//! The per-round contract a protocol author implements, and the value types
//! that cross it: receive errors, provable errors, and the descriptors of
//! the messages an evidence must retain.

use vstd::prelude::*;
use crate::errors::{LocalError, RemoteError, MessageValidationError, ProtocolValidationError};
use crate::message::{DirectMessage, EchoBroadcast, NormalBroadcast, ProtocolMessage, SessionId, SignedMessagePart};
use crate::round_id::RoundId;
use crate::utils::{IdMap, IdSet};

verus! {

/// The position of a round in the protocol's transition graph.
#[derive(Debug)]
pub struct TransitionInfo {
    /// This round's identifier.
    pub id: RoundId,
    /// The keys (see [`RoundId::key`]) of the rounds this round may hand
    /// over to; a superset of what `finalize` actually returns.
    pub possible_next_rounds: IdSet,
    /// Whether this round may produce the protocol's final result.
    pub may_produce_result: bool,
}

/// What other parties a round sends messages to and expects messages from.
#[derive(Debug)]
pub struct CommunicationInfo {
    /// The destinations of the messages to be sent out by this round.
    pub message_destinations: IdSet,
    /// The set of parties this round expects messages from; the round is
    /// finalized once all of them have responded.
    pub expecting_messages_from: IdSet,
    /// The specific way the node participates in the echo round following
    /// this round.
    pub echo_round_participation: EchoRoundParticipation,
}

impl CommunicationInfo {
    /// A regular round that sends messages to all `other_parties` and
    /// expects messages back from them.
    pub fn regular(other_parties: &IdSet) -> (r: Self)
        ensures
            r.message_destinations@ == other_parties@,
            r.expecting_messages_from@ == other_parties@,
            r.message_destinations.elems() == other_parties.elems(),
            r.expecting_messages_from.elems() == other_parties.elems(),
            r.echo_round_participation is Regular,
    {
        CommunicationInfo {
            message_destinations: other_parties.clone(),
            expecting_messages_from: other_parties.clone(),
            echo_round_participation: EchoRoundParticipation::Regular,
        }
    }
}

/// The specific way a node participates in the echo round (if any).
///
/// The engine currently supports only [`EchoRoundParticipation::Regular`]
/// and refuses a round declaring either dedicated mode, rather than
/// silently treating it as regular.
#[derive(Debug)]
pub enum EchoRoundParticipation {
    /// The usual behavior: the node takes part in the echo round exactly
    /// when its round produces an echo broadcast.
    Regular,
    /// This node sends broadcasts that will be echoed, but does not receive
    /// any.
    Send,
    /// This node receives broadcasts that it needs to echo, but does not
    /// send any itself.
    Receive {
        /// The other participants of the echo round, to whom the echoed
        /// messages will be sent.
        echo_targets: IdSet,
    },
}

/// Declares which parts of the message from a round have to be stored to
/// serve as the evidence of malicious behavior.
#[derive(Debug, Clone, Copy, PartialEq, Eq, Structural)]
pub struct RequiredMessageParts {
    /// Whether the echo-broadcast part is retained.
    pub echo_broadcast: bool,
    /// Whether the normal-broadcast part is retained.
    pub normal_broadcast: bool,
    /// Whether the direct-message part is retained.
    pub direct_message: bool,
}

impl RequiredMessageParts {
    fn new(echo_broadcast: bool, normal_broadcast: bool, direct_message: bool) -> (r: Self)
        requires
            echo_broadcast || normal_broadcast || direct_message,
        ensures
            r == (RequiredMessageParts { echo_broadcast, normal_broadcast, direct_message }),
    {
        RequiredMessageParts { echo_broadcast, normal_broadcast, direct_message }
    }

    /// Store the echo broadcast.
    pub fn echo_broadcast() -> (r: Self)
        ensures
            r.echo_broadcast && !r.normal_broadcast && !r.direct_message,
    {
        Self::new(true, false, false)
    }

    /// Store the normal broadcast.
    pub fn normal_broadcast() -> (r: Self)
        ensures
            !r.echo_broadcast && r.normal_broadcast && !r.direct_message,
    {
        Self::new(false, true, false)
    }

    /// Store the direct message.
    pub fn direct_message() -> (r: Self)
        ensures
            !r.echo_broadcast && !r.normal_broadcast && r.direct_message,
    {
        Self::new(false, false, true)
    }

    /// Store the echo broadcast in addition to what is already stored.
    pub fn and_echo_broadcast(&self) -> (r: Self)
        ensures
            r == (RequiredMessageParts {
                echo_broadcast: true,
                ..*self
            }),
    {
        Self::new(true, self.normal_broadcast, self.direct_message)
    }

    /// Store the normal broadcast in addition to what is already stored.
    pub fn and_normal_broadcast(&self) -> (r: Self)
        ensures
            r == (RequiredMessageParts {
                normal_broadcast: true,
                ..*self
            }),
    {
        Self::new(self.echo_broadcast, true, self.direct_message)
    }

    /// Store the direct message in addition to what is already stored.
    pub fn and_direct_message(&self) -> (r: Self)
        ensures
            r == (RequiredMessageParts {
                direct_message: true,
                ..*self
            }),
    {
        Self::new(self.echo_broadcast, self.normal_broadcast, true)
    }
}

/// Declares which messages from this and previous rounds have to be stored
/// to serve as the evidence of malicious behavior.
#[derive(Debug)]
pub struct RequiredMessages {
    /// The parts to store from the message that triggered the error.
    pub this_round: RequiredMessageParts,
    /// The parts to store from the guilty party's messages of previous
    /// rounds, by round key (see [`RoundId::key`]).
    pub previous_rounds: Option<IdMap<RequiredMessageParts>>,
    /// The keys of the rounds whose echo packs from the guilty party have to
    /// be stored; an echo pack bundles the echo broadcasts the party
    /// received, signed by it.
    pub combined_echos: Option<IdSet>,
}

impl RequiredMessages {
    /// The general case constructor.
    pub fn new(
        this_round: RequiredMessageParts,
        previous_rounds: Option<IdMap<RequiredMessageParts>>,
        combined_echos: Option<IdSet>,
    ) -> (r: Self)
        ensures
            r.this_round == this_round,
            r.previous_rounds == previous_rounds,
            r.combined_echos == combined_echos,
    {
        RequiredMessages { this_round, previous_rounds, combined_echos }
    }
}

/// A protocol-defined rejection of a received message, in the form the
/// engine stores it: the round's own error value serialized to bytes,
/// together with its description and the declaration of which prior
/// messages prove it.
#[derive(Debug)]
pub struct ProvableError {
    /// The human-readable description of the rejection.
    pub description: String,
    /// The round's error value, serialized by the round itself.
    pub error_bytes: Vec<u8>,
    /// Which of the guilty party's messages the evidence must retain.
    pub required_messages: RequiredMessages,
}

impl ProvableError {
    /// Packs up a protocol-defined rejection.
    pub fn new(description: String, error_bytes: Vec<u8>, required_messages: RequiredMessages)
        -> (r: Self)
        ensures
            r.description@ == description@,
            r.error_bytes@ == error_bytes@,
            r.required_messages == required_messages,
    {
        ProvableError { description, error_bytes, required_messages }
    }
}

/// An error detected while cross-checking echo broadcasts in the echo
/// round; raised only by the engine itself.
#[derive(Debug)]
pub enum EchoRoundError {
    /// The pack sender attributed to the named party a message that fails
    /// signature verification or carries mismatching metadata; the fault of
    /// the pack sender.
    InvalidEcho(u64),
    /// Two validly signed echo broadcasts with the same metadata but
    /// differing payloads exist; the fault of the party that signed them.
    MismatchedBroadcasts {
        /// The party that signed both parts.
        guilty_party: u64,
        /// The echo broadcast this node received directly.
        we_received: SignedMessagePart,
        /// The echo broadcast another node received, as found in its pack.
        echoed_to_us: SignedMessagePart,
    },
}

/// Which of the three part slots a round uses; a part in an unused slot is
/// invalid.
#[derive(Debug, Clone, Copy, PartialEq, Eq, Structural)]
pub struct PartsDeclaration {
    /// Whether the round sends direct messages.
    pub direct_message: bool,
    /// Whether the round sends an echo broadcast.
    pub echo_broadcast: bool,
    /// Whether the round sends a normal broadcast.
    pub normal_broadcast: bool,
}

/// Checks a received message against a round's slot declaration: accepted
/// exactly when every slot the round does not use is absent. The engine runs
/// this before the round's receive handler.
pub fn check_declared_parts(decl: &PartsDeclaration, m: &ProtocolMessage) -> (r: Result<
    (),
    ReceiveError,
>)
    ensures
        r is Ok <==> ((decl.direct_message || m.direct_message@ is None) && (decl.echo_broadcast
            || m.echo_broadcast@ is None) && (decl.normal_broadcast
            || m.normal_broadcast@ is None)),
        r matches Err(e) ==> (e is InvalidDirectMessage || e is InvalidEchoBroadcast
            || e is InvalidNormalBroadcast),
{
    if !decl.direct_message && !m.direct_message.is_none() {
        return Err(
            ReceiveError::InvalidDirectMessage(
                "a direct message in a slot this round does not use".to_owned(),
            ),
        );
    }
    if !decl.echo_broadcast && !m.echo_broadcast.is_none() {
        return Err(
            ReceiveError::InvalidEchoBroadcast(
                "an echo broadcast in a slot this round does not use".to_owned(),
            ),
        );
    }
    if !decl.normal_broadcast && !m.normal_broadcast.is_none() {
        return Err(
            ReceiveError::InvalidNormalBroadcast(
                "a normal broadcast in a slot this round does not use".to_owned(),
            ),
        );
    }
    Ok(())
}

/// The ways a round's receive handler can reject a message.
#[derive(Debug)]
pub enum ReceiveError {
    /// A bug in the local code; aborts the session.
    Local(LocalError),
    /// The direct-message part cannot be decoded as this round's type.
    InvalidDirectMessage(String),
    /// The echo-broadcast part cannot be decoded as this round's type.
    InvalidEchoBroadcast(String),
    /// The normal-broadcast part cannot be decoded as this round's type.
    InvalidNormalBroadcast(String),
    /// A protocol-defined rejection; bans the sender and produces evidence.
    Protocol(ProvableError),
    /// Wrong, but not attributable; bans the sender without evidence.
    Unprovable(RemoteError),
    /// An echo-consistency fault; raised by the engine's echo round only.
    Echo(EchoRoundError),
}

impl ReceiveError {
    /// A bug in the local code.
    pub fn local(message: &str) -> (r: Self)
        ensures
            r matches ReceiveError::Local(e) && e.message@ == message@,
    {
        ReceiveError::Local(LocalError::new(message.to_owned()))
    }

    /// An unattributable fault of the sender.
    pub fn unprovable(message: &str) -> (r: Self)
        ensures
            r matches ReceiveError::Unprovable(e) && e.message@ == message@,
    {
        ReceiveError::Unprovable(RemoteError::new(message.to_owned()))
    }

    /// A protocol-defined, provable fault of the sender.
    pub fn protocol(error: ProvableError) -> (r: Self)
        ensures
            r == ReceiveError::Protocol(error),
    {
        ReceiveError::Protocol(error)
    }
}

/// Message payload created in [`Round::receive_message`].
///
/// Payloads are local to the node: they accumulate per sender and are handed
/// to [`Round::finalize`]; they are never sent over the wire.
#[derive(Debug)]
pub struct Payload<T> {
    /// The carried value.
    pub value: T,
}

impl<T> Payload<T> {
    /// Wraps a value produced while receiving a message.
    pub fn new(value: T) -> (r: Self)
        ensures
            r.value == value,
    {
        Payload { value }
    }

    /// Unwraps the value at finalization time.
    pub fn try_to_typed(self) -> (r: Result<T, LocalError>)
        ensures
            r matches Ok(v) && v == self.value,
    {
        Ok(self.value)
    }

    /// Unwraps the value at finalization time.
    pub fn downcast(self) -> (r: Result<T, LocalError>)
        ensures
            r matches Ok(v) && v == self.value,
    {
        Ok(self.value)
    }
}

impl Payload<()> {
    /// A payload with nothing in it, for rounds that need none.
    pub fn empty() -> (r: Self)
        ensures
            r.value == (),
    {
        Payload { value: () }
    }
}

/// Associated data created alongside a message in
/// [`Round::make_direct_message`].
///
/// Artifacts are local to the node: they accumulate per destination and are
/// handed to [`Round::finalize`]; they are never sent over the wire.
#[derive(Debug)]
pub struct Artifact<T> {
    /// The carried value.
    pub value: T,
}

impl<T> Artifact<T> {
    /// Wraps a value retained while creating a direct message.
    pub fn new(value: T) -> (r: Self)
        ensures
            r.value == value,
    {
        Artifact { value }
    }

    /// Unwraps the value at finalization time.
    pub fn try_to_typed(self) -> (r: Result<T, LocalError>)
        ensures
            r matches Ok(v) && v == self.value,
    {
        Ok(self.value)
    }

    /// Unwraps the value at finalization time.
    pub fn downcast(self) -> (r: Result<T, LocalError>)
        ensures
            r matches Ok(v) && v == self.value,
    {
        Ok(self.value)
    }
}

impl Artifact<()> {
    /// An artifact with nothing in it, for rounds that need none.
    pub fn empty() -> (r: Self)
        ensures
            r.value == (),
    {
        Artifact { value: () }
    }
}

/// The messages attached to an evidence, as handed to the protocol's
/// replay of a rejection: the triggering message's parts, the retained
/// parts of previous rounds, and the echoed broadcasts of previous rounds.
#[derive(Debug)]
pub struct EvidenceMessages {
    /// The parts of the message that triggered the error, with the parts
    /// not retained by the declaration left absent.
    pub message: ProtocolMessage,
    /// The retained parts of previous rounds, by round key.
    pub previous_messages: IdMap<ProtocolMessage>,
    /// For each requested previous round, the echo broadcasts that the
    /// guilty party bundled into its echo pack, by sender.
    pub combined_echos: IdMap<IdMap<EchoBroadcast>>,
}

impl EvidenceMessages {
    /// The direct message that triggered the error.
    pub fn direct_message(&self) -> (r: &DirectMessage)
        ensures
            r == &self.message.direct_message,
    {
        &self.message.direct_message
    }

    /// The echo broadcast that triggered the error.
    pub fn echo_broadcast(&self) -> (r: &EchoBroadcast)
        ensures
            r == &self.message.echo_broadcast,
    {
        &self.message.echo_broadcast
    }

    /// The normal broadcast that triggered the error.
    pub fn normal_broadcast(&self) -> (r: &NormalBroadcast)
        ensures
            r == &self.message.normal_broadcast,
    {
        &self.message.normal_broadcast
    }

    /// The retained direct message of a previous regular round.
    pub fn previous_direct_message(&self, round_num: u8) -> (r: Result<
        &DirectMessage,
        ProtocolValidationError,
    >)
        ensures
            r is Ok <==> self.previous_messages@.dom().contains(
                (RoundId { round_num, is_echo: false }).spec_key(),
            ),
            r matches Ok(m) ==> {
                let key = RoundId { round_num, is_echo: false }.spec_key();
                self.previous_messages@.dom().contains(key) && m == &self.previous_messages@[
                    key
                ].direct_message
            },
    {
        match self.previous_messages.get(RoundId::new(round_num).key()) {
            Some(m) => Ok(&m.direct_message),
            None => Err(
                ProtocolValidationError::InvalidEvidence(
                    "messages for the requested round are not attached".to_owned(),
                ),
            ),
        }
    }

    /// The retained echo broadcast of a previous regular round.
    pub fn previous_echo_broadcast(&self, round_num: u8) -> (r: Result<
        &EchoBroadcast,
        ProtocolValidationError,
    >)
        ensures
            r is Ok <==> self.previous_messages@.dom().contains(
                (RoundId { round_num, is_echo: false }).spec_key(),
            ),
            r matches Ok(m) ==> {
                let key = RoundId { round_num, is_echo: false }.spec_key();
                self.previous_messages@.dom().contains(key) && m == &self.previous_messages@[
                    key
                ].echo_broadcast
            },
    {
        match self.previous_messages.get(RoundId::new(round_num).key()) {
            Some(m) => Ok(&m.echo_broadcast),
            None => Err(
                ProtocolValidationError::InvalidEvidence(
                    "messages for the requested round are not attached".to_owned(),
                ),
            ),
        }
    }

    /// The retained normal broadcast of a previous regular round.
    pub fn previous_normal_broadcast(&self, round_num: u8) -> (r: Result<
        &NormalBroadcast,
        ProtocolValidationError,
    >)
        ensures
            r is Ok <==> self.previous_messages@.dom().contains(
                (RoundId { round_num, is_echo: false }).spec_key(),
            ),
            r matches Ok(m) ==> {
                let key = RoundId { round_num, is_echo: false }.spec_key();
                self.previous_messages@.dom().contains(key) && m == &self.previous_messages@[
                    key
                ].normal_broadcast
            },
    {
        match self.previous_messages.get(RoundId::new(round_num).key()) {
            Some(m) => Ok(&m.normal_broadcast),
            None => Err(
                ProtocolValidationError::InvalidEvidence(
                    "messages for the requested round are not attached".to_owned(),
                ),
            ),
        }
    }

    /// The echo broadcasts the guilty party bundled into its echo pack for
    /// a previous regular round, by sender.
    pub fn combined_echos(&self, round_num: u8) -> (r: Result<
        &IdMap<EchoBroadcast>,
        ProtocolValidationError,
    >)
        ensures
            r is Ok <==> self.combined_echos@.dom().contains(
                (RoundId { round_num, is_echo: false }).spec_key(),
            ),
            r matches Ok(m) ==> {
                let key = RoundId { round_num, is_echo: false }.spec_key();
                self.combined_echos@.dom().contains(key) && m == &self.combined_echos@[key]
            },
    {
        match self.combined_echos.get(RoundId::new(round_num).key()) {
            Some(m) => Ok(m),
            None => Err(
                ProtocolValidationError::InvalidEvidence(
                    "echoed broadcasts for the requested round are not attached".to_owned(),
                ),
            ),
        }
    }
}

/// Possible successful outcomes of [`Round::finalize`].
#[derive(Debug)]
pub enum FinalizeOutcome<R: Round> {
    /// Transition to a new round.
    AnotherRound(R),
    /// The protocol reached its final result.
    Finished(R::Output),
}

/// A single round of a protocol, implemented by the protocol author.
///
/// A protocol is one Rust type implementing this trait, whose values
/// distinguish which logical round they are in; `finalize` hands over the
/// value for the next round. The implementor also supplies, as static
/// methods, the validation logic that evidence verification replays.
///
/// The round may assume of the messages it receives: the signatures have
/// been verified, the metadata matches this round, senders lie within
/// `expecting_messages_from`, and each sender contributes at most one
/// payload. Nothing the engine proves depends on how the round behaves.
///
/// The engine supplies no randomness: a round that needs some draws it when
/// it is constructed and threads it through its own state.
pub trait Round: Sized {
    /// What a received message is distilled to, consumed by `finalize`.
    type Payload;

    /// What is retained per outgoing direct message, consumed by `finalize`.
    type Artifact;

    /// The protocol's final result.
    type Output;

    /// The position of this round in the transition graph.
    fn transition_info(&self) -> TransitionInfo;

    /// Who this round talks to, and who must answer.
    fn communication_info(&self) -> CommunicationInfo;

    /// Which part slots this round uses; the engine rejects, as invalid, a
    /// part filling a slot declared unused, before the round sees it.
    fn parts_declaration(&self) -> PartsDeclaration;

    /// The direct message for the given destination, with an optional
    /// artifact to keep; `None` if this round sends no direct messages,
    /// which must be consistent across destinations.
    fn make_direct_message(&self, destination: u64) -> Result<
        Option<(DirectMessage, Self::Artifact)>,
        LocalError,
    >;

    /// The echo broadcast of this round, if any; returning one schedules an
    /// echo round right after this round.
    fn make_echo_broadcast(&self) -> Result<Option<EchoBroadcast>, LocalError>;

    /// The normal broadcast of this round, if any.
    fn make_normal_broadcast(&self) -> Result<Option<NormalBroadcast>, LocalError>;

    /// Processes an authenticated message and distills the payload used at
    /// finalization, or rejects it.
    fn receive_message(&self, from: u64, message: ProtocolMessage) -> Result<
        Self::Payload,
        ReceiveError,
    >;

    /// Finalizes the round over the payloads and artifacts accumulated for
    /// it, producing the next round or the final result.
    fn finalize(
        self,
        payloads: IdMap<Self::Payload>,
        artifacts: IdMap<Self::Artifact>,
    ) -> Result<FinalizeOutcome<Self>, LocalError>;

    /// Checks that the direct-message part is indeed invalid in the named
    /// round: undecodable as the round's type, or present where the round
    /// declares the slot absent, or absent where it must be present.
    fn verify_direct_message_is_invalid(round_id: &RoundId, message: &DirectMessage) -> Result<
        (),
        MessageValidationError,
    >;

    /// Checks that the echo-broadcast part is indeed invalid in the named
    /// round.
    fn verify_echo_broadcast_is_invalid(round_id: &RoundId, message: &EchoBroadcast) -> Result<
        (),
        MessageValidationError,
    >;

    /// Checks that the normal-broadcast part is indeed invalid in the named
    /// round.
    fn verify_normal_broadcast_is_invalid(round_id: &RoundId, message: &NormalBroadcast) -> Result<
        (),
        MessageValidationError,
    >;

    /// Replays a protocol-defined rejection over the attached messages:
    /// returns success exactly when they reproduce the serialized error
    /// against the guilty party. Implementations must be deterministic and
    /// side-effect-free.
    fn verify_evidence(
        round_id: &RoundId,
        guilty_party: u64,
        session_id: &SessionId,
        error_bytes: &Vec<u8>,
        messages: &EvidenceMessages,
    ) -> Result<(), ProtocolValidationError>;
}

} // verus!
