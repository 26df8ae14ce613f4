//! Self-contained evidence of a party's misbehavior: the minimum signed
//! messages needed to reproduce the rejection, plus the serialized error.
//! Verification is stateless; it never consults the transcript.

use vstd::prelude::*;
use crate::codec::{dec_string, enc_bytes, enc_string, enc_u64, dec_bytes, lemma_bytes_round_trip, lemma_string_round_trip, lemma_subrange_of_concat, lemma_u64_round_trip, read_bytes, read_string, read_u64, u64_of_bytes, write_bytes, write_string, write_u64};
use crate::echo::{dec_pack, echo_pack_invalid, enc_pack, lemma_pack_round_trip, pack_entries_wf, part_views, read_pack, write_pack};
use crate::errors::DeserializationError;
use crate::message::{dec_signed_part, enc_signed_part, lemma_signed_part_round_trip, read_signed_part, write_signed_part, SignedPartView};
use crate::errors::{EvidenceError, LocalError, MessageValidationError, ProtocolValidationError};
use crate::message::{clone_opt_bytes, echo_part_meta, opt_bytes_eq, part_signed_by, DirectMessage, EchoBroadcast, Metadata, NormalBroadcast, PartKind, ProtocolMessage, SignedMessagePart};
use crate::round::{EchoRoundError, EvidenceMessages, Round};
use crate::round_id::RoundId;
use crate::utils::{distinct_keys, has_key, IdMap, IdSet};

verus! {

/// Evidence that a signed direct message is invalid for its round: it fails
/// to decode as the round's declared type, or fills a slot the round
/// declares absent.
#[derive(Debug)]
pub struct InvalidDirectMessageEvidence {
    /// The offending signed part.
    pub direct_message: SignedMessagePart,
}

/// Evidence that a signed echo broadcast is invalid for its round.
#[derive(Debug)]
pub struct InvalidEchoBroadcastEvidence {
    /// The offending signed part.
    pub echo_broadcast: SignedMessagePart,
}

/// Evidence that a signed normal broadcast is invalid for its round.
#[derive(Debug)]
pub struct InvalidNormalBroadcastEvidence {
    /// The offending signed part.
    pub normal_broadcast: SignedMessagePart,
}

/// Evidence that a party's echo pack attributes to some sender a message
/// that the sender did not sign, or signed under other metadata.
#[derive(Debug)]
pub struct InvalidEchoPackEvidence {
    /// The guilty party's signed echo pack: the normal broadcast of the
    /// echo round.
    pub echo_pack: SignedMessagePart,
    /// The sender whose pack entry does not check out.
    pub invalid_echo_sender: u64,
}

/// Evidence that a party signed two echo broadcasts with identical metadata
/// but differing payloads.
#[derive(Debug)]
pub struct MismatchedBroadcastsEvidence {
    /// The echo broadcast this node received directly.
    pub we_received: SignedMessagePart,
    /// The echo broadcast another node received, taken from its echo pack.
    pub echoed_to_us: SignedMessagePart,
}

/// Evidence of a protocol-defined rejection: the round's serialized error
/// together with the signed messages its declaration retains.
#[derive(Debug)]
pub struct ProtocolEvidence {
    /// The round's error value, serialized by the round itself.
    pub error_bytes: Vec<u8>,
    /// The triggering message's direct part, if retained.
    pub direct_message: Option<SignedMessagePart>,
    /// The triggering message's echo-broadcast part, if retained.
    pub echo_broadcast: Option<SignedMessagePart>,
    /// The triggering message's normal-broadcast part, if retained.
    pub normal_broadcast: Option<SignedMessagePart>,
    /// Retained direct messages of previous rounds, by round key.
    pub direct_messages: IdMap<SignedMessagePart>,
    /// Retained echo broadcasts of previous rounds, by round key.
    pub echo_broadcasts: IdMap<SignedMessagePart>,
    /// Retained normal broadcasts of previous rounds, by round key.
    pub normal_broadcasts: IdMap<SignedMessagePart>,
    /// The guilty party's echo packs for previous rounds, by round key.
    pub combined_echos: IdMap<SignedMessagePart>,
}

/// The closed set of evidence shapes.
#[derive(Debug)]
pub enum EvidenceEnum {
    /// A protocol-defined rejection.
    Protocol(ProtocolEvidence),
    /// An invalid direct message.
    InvalidDirectMessage(InvalidDirectMessageEvidence),
    /// An invalid echo broadcast.
    InvalidEchoBroadcast(InvalidEchoBroadcastEvidence),
    /// An invalid normal broadcast.
    InvalidNormalBroadcast(InvalidNormalBroadcastEvidence),
    /// An invalid entry in an echo pack.
    InvalidEchoPack(InvalidEchoPackEvidence),
    /// Two contradictory signed echo broadcasts.
    MismatchedBroadcasts(MismatchedBroadcastsEvidence),
}

/// A self-contained, third-party-verifiable proof of one party's
/// misbehavior.
#[derive(Debug)]
pub struct Evidence {
    /// The party the evidence is against.
    pub guilty_party: u64,
    /// A human-readable description of the misbehavior.
    pub description: String,
    /// The evidence itself.
    pub evidence: EvidenceEnum,
}

/// The metadata that a well-formed entry of an echo pack must carry, derived
/// from the pack's own metadata: same session, the pack's round without the
/// echo flag, the echo-broadcast kind, no destination.
pub open spec fn pack_entry_meta(pack_meta: Metadata) -> Metadata {
    Metadata {
        session_id: pack_meta.session_id,
        round_id: RoundId { round_num: pack_meta.round_id.round_num, is_echo: false },
        kind: PartKind::EchoBroadcast,
        destination: None,
    }
}

/// What makes a mismatched-broadcasts evidence conclusive: both parts are
/// signed by the guilty party over identical metadata but differing
/// payloads.
pub open spec fn mismatched_broadcasts_valid(e: MismatchedBroadcastsEvidence, guilty: u64) -> bool {
    &&& part_signed_by(e.we_received@, guilty)
    &&& part_signed_by(e.echoed_to_us@, guilty)
    &&& e.we_received@.metadata == e.echoed_to_us@.metadata
    &&& e.we_received@.payload != e.echoed_to_us@.payload
}

/// What makes an invalid-echo-pack evidence conclusive: the pack is signed
/// by the guilty party for an echo round, it decodes, and its entry for the
/// named sender is not a broadcast that sender signed under the metadata
/// the pack's round calls for.
pub open spec fn invalid_echo_pack_valid(e: InvalidEchoPackEvidence, guilty: u64) -> bool {
    &&& part_signed_by(e.echo_pack@, guilty)
    &&& e.echo_pack@.metadata.kind == PartKind::NormalBroadcast
    &&& e.echo_pack@.metadata.round_id.is_echo
    &&& match e.echo_pack@.payload {
        Some(b) => match dec_pack(b, 0) {
            Some((entries, _)) => {
                &&& distinct_keys(entries)
                &&& has_key(entries, e.invalid_echo_sender)
                &&& forall|j: int|
                    0 <= j < entries.len() && (#[trigger] entries[j]).0 == e.invalid_echo_sender
                        ==> !(part_signed_by(entries[j].1, e.invalid_echo_sender)
                        && entries[j].1.metadata == pack_entry_meta(e.echo_pack@.metadata))
            },
            None => false,
        },
        None => false,
    }
}

/// What makes an invalid-normal-broadcast evidence against an echo round
/// conclusive: the part is signed by the guilty party and is not a
/// well-formed echo pack.
pub open spec fn invalid_echo_round_pack_valid(e: InvalidNormalBroadcastEvidence, guilty: u64)
    -> bool {
    &&& part_signed_by(e.normal_broadcast@, guilty)
    &&& e.normal_broadcast@.metadata.round_id.is_echo
    &&& echo_pack_invalid(e.normal_broadcast@.payload)
}

/// Every entry of a key-part view sequence is signed by the guilty party.
pub open spec fn parts_seq_signed(s: Seq<(u64, SignedPartView)>, guilty: u64) -> bool {
    forall|i: int| 0 <= i < s.len() ==> part_signed_by((#[trigger] s[i]).1, guilty)
}

/// Every message a protocol evidence attaches is signed by the guilty
/// party: the triggering parts it retains, the retained parts of previous
/// rounds, and the echo packs.
pub open spec fn protocol_evidence_signed(p: ProtocolEvidence, guilty: u64) -> bool {
    &&& (match p.direct_message {
        Some(q) => part_signed_by(q@, guilty),
        None => true,
    })
    &&& (match p.echo_broadcast {
        Some(q) => part_signed_by(q@, guilty),
        None => true,
    })
    &&& (match p.normal_broadcast {
        Some(q) => part_signed_by(q@, guilty),
        None => true,
    })
    &&& parts_seq_signed(part_views(p.direct_messages.elems()), guilty)
    &&& parts_seq_signed(part_views(p.echo_broadcasts.elems()), guilty)
    &&& parts_seq_signed(part_views(p.normal_broadcasts.elems()), guilty)
    &&& parts_seq_signed(part_views(p.combined_echos.elems()), guilty)
}

/// What the engine itself guarantees of an evidence it constructs. For the
/// evidence kinds whose verification is entirely the engine's
/// (echo-consistency faults), verification is guaranteed to succeed. For
/// the kinds whose verification replays protocol-supplied checks, every
/// attached message is signed by the guilty party, so verification can only
/// turn on the replayed check itself — which is the protocol author's.
pub open spec fn evidence_valid(ev: Evidence) -> bool {
    match ev.evidence {
        EvidenceEnum::InvalidEchoPack(e) => invalid_echo_pack_valid(e, ev.guilty_party),
        EvidenceEnum::MismatchedBroadcasts(e) => mismatched_broadcasts_valid(e, ev.guilty_party),
        EvidenceEnum::InvalidNormalBroadcast(e) => part_signed_by(
            e.normal_broadcast@,
            ev.guilty_party,
        ) && (e.normal_broadcast@.metadata.round_id.is_echo ==> invalid_echo_round_pack_valid(
            e,
            ev.guilty_party,
        )),
        EvidenceEnum::InvalidDirectMessage(e) => part_signed_by(
            e.direct_message@,
            ev.guilty_party,
        ),
        EvidenceEnum::InvalidEchoBroadcast(e) => part_signed_by(
            e.echo_broadcast@,
            ev.guilty_party,
        ),
        EvidenceEnum::Protocol(p) => protocol_evidence_signed(p, ev.guilty_party),
    }
}

fn verify_mismatched_broadcasts(e: &MismatchedBroadcastsEvidence, guilty: u64) -> (r: Result<
    (),
    EvidenceError,
>)
    ensures
        r is Ok <==> mismatched_broadcasts_valid(*e, guilty),
{
    let signed = e.we_received.verify(guilty) && e.echoed_to_us.verify(guilty);
    let same_meta = e.we_received.metadata == e.echoed_to_us.metadata;
    let differ = !opt_bytes_eq(&e.we_received.payload, &e.echoed_to_us.payload);
    if signed && same_meta && differ {
        Ok(())
    } else {
        Err(
            EvidenceError::InvalidEvidence(
                "the attached messages do not constitute malicious behavior".to_owned(),
            ),
        )
    }
}

fn verify_invalid_echo_pack(e: &InvalidEchoPackEvidence, guilty: u64) -> (r: Result<
    (),
    EvidenceError,
>)
    ensures
        r is Ok <==> invalid_echo_pack_valid(*e, guilty),
{
    let s = e.invalid_echo_sender;
    if !e.echo_pack.verify(guilty) {
        return Err(EvidenceError::InvalidEvidence("the echo pack is not validly signed".to_owned()));
    }
    if !matches!(e.echo_pack.metadata.kind, PartKind::NormalBroadcast)
        || !e.echo_pack.metadata.round_id.is_echo() {
        return Err(
            EvidenceError::InvalidEvidence("the attached part is not an echo pack".to_owned()),
        );
    }
    let bytes = match &e.echo_pack.payload {
        Some(b) => b,
        None => {
            return Err(EvidenceError::InvalidEvidence("the echo pack is absent".to_owned()));
        },
    };
    let (pack, _end) = match read_pack(bytes, 0) {
        Some(v) => v,
        None => {
            return Err(
                EvidenceError::InvalidEvidence("the echo pack cannot be decoded".to_owned()),
            );
        },
    };
    pack.entries_facts();
    let ghost entries = part_views(pack.elems());
    let entry = match pack.get(s) {
        Some(entry) => entry,
        None => {
            proof {
                if has_key(entries, s) {
                    let j = choose|j: int|
                        0 <= j < entries.len() && (#[trigger] entries[j]).0 == s;
                    assert((pack.elems()[j]).0 == s);
                    assert(has_key(pack.elems(), s));
                }
            }
            return Err(
                EvidenceError::InvalidEvidence(
                    "the sender is not in the attached echo pack".to_owned(),
                ),
            );
        },
    };
    proof {
        assert(has_key(pack.elems(), s));
        let j = choose|j: int| 0 <= j < pack.elems().len() && (#[trigger] pack.elems()[j]).0 == s;
        assert(pack.elems()[j].1 == pack@[s]);
        assert(entries[j] == (s, pack@[s]@));
        assert(has_key(entries, s));
    }
    let expected = Metadata {
        session_id: e.echo_pack.metadata.session_id,
        round_id: e.echo_pack.metadata.round_id.non_echo(),
        kind: PartKind::EchoBroadcast,
        destination: None,
    };
    let entry_ok = entry.verify(s) && entry.metadata == expected;
    proof {
        let j = choose|j: int| 0 <= j < pack.elems().len() && (#[trigger] pack.elems()[j]).0 == s;
        assert(distinct_keys(pack.elems()));
        if entry_ok {
            assert(part_signed_by(entries[j].1, s) && entries[j].1.metadata == pack_entry_meta(
                e.echo_pack@.metadata,
            ));
        } else {
            assert forall|j2: int|
                0 <= j2 < entries.len() && (#[trigger] entries[j2]).0 == s implies !(
            part_signed_by(entries[j2].1, s) && entries[j2].1.metadata == pack_entry_meta(
                e.echo_pack@.metadata,
            )) by {
                assert(pack.elems()[j2].0 == s);
                assert(j2 == j);
            }
        }
    }
    if entry_ok {
        Err(
            EvidenceError::InvalidEvidence(
                "there is nothing wrong with the echoed message".to_owned(),
            ),
        )
    } else {
        Ok(())
    }
}

fn map_message_validation(check: Result<(), MessageValidationError>) -> (r: Result<
    (),
    EvidenceError,
>)
    ensures
        r is Ok <==> check is Ok,
{
    match check {
        Ok(()) => Ok(()),
        Err(MessageValidationError::Local(e)) => Err(EvidenceError::Local(e)),
        Err(MessageValidationError::InvalidEvidence(m)) => Err(EvidenceError::InvalidEvidence(m)),
    }
}

fn verify_invalid_direct_message<R: Round>(e: &InvalidDirectMessageEvidence, guilty: u64) -> (r:
    Result<(), EvidenceError>)
    ensures
        r is Ok ==> part_signed_by(e.direct_message@, guilty),
        e.direct_message@.metadata.round_id.is_echo ==> (r is Ok <==> (part_signed_by(
            e.direct_message@,
            guilty,
        ) && e.direct_message@.payload is Some)),
{
    if !e.direct_message.verify(guilty) {
        return Err(
            EvidenceError::InvalidEvidence("the attached part is not validly signed".to_owned()),
        );
    }
    let round_id = e.direct_message.metadata.round_id;
    if round_id.is_echo() {
        // The echo round has no direct messages: the part is invalid exactly
        // when it is present.
        if e.direct_message.is_none() {
            Err(EvidenceError::InvalidEvidence("the attached part is absent".to_owned()))
        } else {
            Ok(())
        }
    } else {
        let message = DirectMessage { payload: clone_opt_bytes(&e.direct_message.payload) };
        map_message_validation(R::verify_direct_message_is_invalid(&round_id, &message))
    }
}

fn verify_invalid_echo_broadcast<R: Round>(e: &InvalidEchoBroadcastEvidence, guilty: u64) -> (r:
    Result<(), EvidenceError>)
    ensures
        r is Ok ==> part_signed_by(e.echo_broadcast@, guilty),
        e.echo_broadcast@.metadata.round_id.is_echo ==> (r is Ok <==> (part_signed_by(
            e.echo_broadcast@,
            guilty,
        ) && e.echo_broadcast@.payload is Some)),
{
    if !e.echo_broadcast.verify(guilty) {
        return Err(
            EvidenceError::InvalidEvidence("the attached part is not validly signed".to_owned()),
        );
    }
    let round_id = e.echo_broadcast.metadata.round_id;
    if round_id.is_echo() {
        if e.echo_broadcast.is_none() {
            Err(EvidenceError::InvalidEvidence("the attached part is absent".to_owned()))
        } else {
            Ok(())
        }
    } else {
        let message = EchoBroadcast { payload: clone_opt_bytes(&e.echo_broadcast.payload) };
        map_message_validation(R::verify_echo_broadcast_is_invalid(&round_id, &message))
    }
}

fn verify_invalid_normal_broadcast<R: Round>(e: &InvalidNormalBroadcastEvidence, guilty: u64) -> (r:
    Result<(), EvidenceError>)
    ensures
        e.normal_broadcast@.metadata.round_id.is_echo ==> (r is Ok <==> invalid_echo_round_pack_valid(
            *e,
            guilty,
        )),
        r is Ok ==> part_signed_by(e.normal_broadcast@, guilty),
{
    if !e.normal_broadcast.verify(guilty) {
        return Err(
            EvidenceError::InvalidEvidence("the attached part is not validly signed".to_owned()),
        );
    }
    let round_id = e.normal_broadcast.metadata.round_id;
    if round_id.is_echo() {
        // The normal broadcast of an echo round is its echo pack: it is
        // invalid exactly when it is absent or fails to decode.
        match &e.normal_broadcast.payload {
            None => Ok(()),
            Some(b) => match read_pack(b, 0) {
                Some((pack, _end)) => {
                    pack.entries_facts();
                    proof {
                        crate::echo::lemma_part_views_distinct(pack.elems());
                    }
                    Err(
                        EvidenceError::InvalidEvidence(
                            "the echo pack decodes correctly".to_owned(),
                        ),
                    )
                },
                None => Ok(()),
            },
        }
    } else {
        let message = NormalBroadcast { payload: clone_opt_bytes(&e.normal_broadcast.payload) };
        map_message_validation(R::verify_normal_broadcast_is_invalid(&round_id, &message))
    }
}

impl Evidence {
    /// The party the evidence is against.
    pub fn guilty_party(&self) -> (r: u64)
        ensures
            r == self.guilty_party,
    {
        self.guilty_party
    }

    /// The human-readable description of the misbehavior.
    pub fn description(&self) -> (r: &String)
        ensures
            r@ == self.description@,
    {
        &self.description
    }

    /// Evidence that a party's direct message is invalid for its round.
    pub fn new_invalid_direct_message(
        guilty_party: u64,
        direct_message: SignedMessagePart,
        description: String,
    ) -> (r: Self)
        requires
            part_signed_by(direct_message@, guilty_party),
        ensures
            r.guilty_party == guilty_party,
            r.description@ == description@,
            r.evidence matches EvidenceEnum::InvalidDirectMessage(e) && e.direct_message@
                == direct_message@,
            evidence_valid(r),
    {
        Evidence {
            guilty_party,
            description,
            evidence: EvidenceEnum::InvalidDirectMessage(
                InvalidDirectMessageEvidence { direct_message },
            ),
        }
    }

    /// Evidence that a party's echo broadcast is invalid for its round.
    pub fn new_invalid_echo_broadcast(
        guilty_party: u64,
        echo_broadcast: SignedMessagePart,
        description: String,
    ) -> (r: Self)
        requires
            part_signed_by(echo_broadcast@, guilty_party),
        ensures
            r.guilty_party == guilty_party,
            r.description@ == description@,
            r.evidence matches EvidenceEnum::InvalidEchoBroadcast(e) && e.echo_broadcast@
                == echo_broadcast@,
            evidence_valid(r),
    {
        Evidence {
            guilty_party,
            description,
            evidence: EvidenceEnum::InvalidEchoBroadcast(
                InvalidEchoBroadcastEvidence { echo_broadcast },
            ),
        }
    }

    /// Evidence that a party's normal broadcast is invalid for its round.
    pub fn new_invalid_normal_broadcast(
        guilty_party: u64,
        normal_broadcast: SignedMessagePart,
        description: String,
    ) -> (r: Self)
        requires
            part_signed_by(normal_broadcast@, guilty_party),
            normal_broadcast@.metadata.round_id.is_echo ==> echo_pack_invalid(
                normal_broadcast@.payload,
            ),
        ensures
            r.guilty_party == guilty_party,
            r.description@ == description@,
            r.evidence matches EvidenceEnum::InvalidNormalBroadcast(e) && e.normal_broadcast@
                == normal_broadcast@,
            evidence_valid(r),
    {
        Evidence {
            guilty_party,
            description,
            evidence: EvidenceEnum::InvalidNormalBroadcast(
                InvalidNormalBroadcastEvidence { normal_broadcast },
            ),
        }
    }

    /// Evidence for a fault found while cross-checking echo packs: either
    /// against the pack's sender (an entry its attested signer did not
    /// sign) or against the signer of two contradictory broadcasts.
    pub fn new_echo_round_error(
        from: u64,
        normal_broadcast: SignedMessagePart,
        error: EchoRoundError,
        description: String,
    ) -> (r: Self)
        requires
            (error matches EchoRoundError::InvalidEcho(s) ==> invalid_echo_pack_valid(
                InvalidEchoPackEvidence { echo_pack: normal_broadcast, invalid_echo_sender: s },
                from,
            )),
            (error matches EchoRoundError::MismatchedBroadcasts {
                guilty_party,
                we_received,
                echoed_to_us,
            } ==> mismatched_broadcasts_valid(
                MismatchedBroadcastsEvidence { we_received, echoed_to_us },
                guilty_party,
            )),
        ensures
            evidence_valid(r),
            (error matches EchoRoundError::InvalidEcho(s) ==> r.guilty_party == from
                && r.evidence == EvidenceEnum::InvalidEchoPack(
                InvalidEchoPackEvidence { echo_pack: normal_broadcast, invalid_echo_sender: s },
            )),
            (error matches EchoRoundError::MismatchedBroadcasts {
                guilty_party,
                we_received,
                echoed_to_us,
            } ==> r.guilty_party == guilty_party && r.evidence
                == EvidenceEnum::MismatchedBroadcasts(
                MismatchedBroadcastsEvidence { we_received, echoed_to_us },
            )),
    {
        match error {
            EchoRoundError::InvalidEcho(s) => Evidence {
                guilty_party: from,
                description,
                evidence: EvidenceEnum::InvalidEchoPack(
                    InvalidEchoPackEvidence {
                        echo_pack: normal_broadcast,
                        invalid_echo_sender: s,
                    },
                ),
            },
            EchoRoundError::MismatchedBroadcasts { guilty_party, we_received, echoed_to_us } => Evidence {
                guilty_party,
                description,
                evidence: EvidenceEnum::MismatchedBroadcasts(
                    MismatchedBroadcastsEvidence { we_received, echoed_to_us },
                ),
            },
        }
    }

    /// Verifies the evidence: checks every attached signature against the
    /// guilty party and replays the validation that the round's messages
    /// failed. Success means the evidence is conclusive.
    ///
    /// Verification reads only the evidence itself; for the echo-round
    /// fault kinds its outcome is exactly the validity predicate the engine
    /// establishes at construction.
    pub fn verify<R: Round>(&self) -> (r: Result<(), EvidenceError>)
        ensures
            (match self.evidence {
                EvidenceEnum::MismatchedBroadcasts(e) => r is Ok <==> mismatched_broadcasts_valid(
                    e,
                    self.guilty_party,
                ),
                EvidenceEnum::InvalidEchoPack(e) => r is Ok <==> invalid_echo_pack_valid(
                    e,
                    self.guilty_party,
                ),
                EvidenceEnum::InvalidNormalBroadcast(e) => (
                e.normal_broadcast@.metadata.round_id.is_echo ==> (r is Ok
                    <==> invalid_echo_round_pack_valid(e, self.guilty_party))) && (r is Ok
                    ==> part_signed_by(e.normal_broadcast@, self.guilty_party)),
                EvidenceEnum::InvalidDirectMessage(e) => r is Ok ==> part_signed_by(
                    e.direct_message@,
                    self.guilty_party,
                ),
                EvidenceEnum::InvalidEchoBroadcast(e) => r is Ok ==> part_signed_by(
                    e.echo_broadcast@,
                    self.guilty_party,
                ),
                EvidenceEnum::Protocol(p) => r is Ok ==> protocol_evidence_signed(
                    p,
                    self.guilty_party,
                ) && protocol_evidence_checked(p, self.guilty_party),
            }),
    {
        match &self.evidence {
            EvidenceEnum::MismatchedBroadcasts(e) => verify_mismatched_broadcasts(
                e,
                self.guilty_party,
            ),
            EvidenceEnum::InvalidEchoPack(e) => verify_invalid_echo_pack(e, self.guilty_party),
            EvidenceEnum::InvalidDirectMessage(e) => verify_invalid_direct_message::<R>(
                e,
                self.guilty_party,
            ),
            EvidenceEnum::InvalidEchoBroadcast(e) => verify_invalid_echo_broadcast::<R>(
                e,
                self.guilty_party,
            ),
            EvidenceEnum::InvalidNormalBroadcast(e) => verify_invalid_normal_broadcast::<R>(
                e,
                self.guilty_party,
            ),
            EvidenceEnum::Protocol(e) => verify_protocol::<R>(e, self.guilty_party),
        }
    }
}

/// The metadata of the triggering message: the first retained part's.
pub open spec fn protocol_reference_meta(e: ProtocolEvidence) -> Option<Metadata> {
    match e.direct_message {
        Some(p) => Some(p@.metadata),
        None => match e.echo_broadcast {
            Some(p) => Some(p@.metadata),
            None => match e.normal_broadcast {
                Some(p) => Some(p@.metadata),
                None => None,
            },
        },
    }
}

/// A retained previous-round part checks out: signed by the guilty party,
/// in the given session, filed under its own round key with the map's kind.
pub open spec fn previous_part_checked(
    p: SignedMessagePart,
    guilty: u64,
    session_id: crate::message::SessionId,
    rk: u64,
    kind: PartKind,
) -> bool {
    &&& part_signed_by(p@, guilty)
    &&& p@.metadata.session_id == session_id
    &&& p@.metadata.round_id.spec_key() == rk
    &&& p@.metadata.kind == kind
}

/// An attached echo pack checks out: the guilty party's normal broadcast of
/// the keyed round's echo sub-round, decoding to entries each signed by its
/// own sender under the main round's echo metadata.
pub open spec fn combined_pack_checked(
    p: SignedMessagePart,
    guilty: u64,
    session_id: crate::message::SessionId,
    rk: u64,
) -> bool {
    &&& part_signed_by(p@, guilty)
    &&& p@.metadata.session_id == session_id
    &&& p@.metadata.kind == PartKind::NormalBroadcast
    &&& p@.metadata.round_id.is_echo
    &&& p@.metadata.round_id.spec_non_echo().spec_key() == rk
    &&& (match p@.payload {
        Some(b) => match dec_pack(b, 0) {
            Some((entries, _)) => forall|j: int| 0 <= j < entries.len() ==> part_signed_by(
                (#[trigger] entries[j]).1,
                entries[j].0,
            ) && entries[j].1.metadata == echo_part_meta(
                session_id,
                p@.metadata.round_id.spec_non_echo(),
            ),
            None => false,
        },
        None => false,
    })
}

/// What protocol-evidence verification checks before delegating to the
/// protocol's replay: every attached message is signed by the guilty party
/// (pack entries by their own senders), every session id is the triggering
/// message's, and every round id matches its declared position.
pub open spec fn protocol_evidence_checked(e: ProtocolEvidence, guilty: u64) -> bool {
    match protocol_reference_meta(e) {
        None => false,
        Some(reference) => {
            &&& (match e.direct_message {
                Some(p) => p@.metadata.session_id == reference.session_id && p@.metadata.round_id
                    == reference.round_id && p@.metadata.kind == PartKind::DirectMessage,
                None => true,
            })
            &&& (match e.echo_broadcast {
                Some(p) => p@.metadata.session_id == reference.session_id && p@.metadata.round_id
                    == reference.round_id && p@.metadata.kind == PartKind::EchoBroadcast,
                None => true,
            })
            &&& (match e.normal_broadcast {
                Some(p) => p@.metadata.session_id == reference.session_id && p@.metadata.round_id
                    == reference.round_id && p@.metadata.kind == PartKind::NormalBroadcast,
                None => true,
            })
            &&& (forall|rk: u64| #[trigger] e.direct_messages@.dom().contains(rk)
                ==> previous_part_checked(
                e.direct_messages@[rk],
                guilty,
                reference.session_id,
                rk,
                PartKind::DirectMessage,
            ))
            &&& (forall|rk: u64| #[trigger] e.echo_broadcasts@.dom().contains(rk)
                ==> previous_part_checked(
                e.echo_broadcasts@[rk],
                guilty,
                reference.session_id,
                rk,
                PartKind::EchoBroadcast,
            ))
            &&& (forall|rk: u64| #[trigger] e.normal_broadcasts@.dom().contains(rk)
                ==> previous_part_checked(
                e.normal_broadcasts@[rk],
                guilty,
                reference.session_id,
                rk,
                PartKind::NormalBroadcast,
            ))
            &&& (forall|rk: u64| #[trigger] e.combined_echos@.dom().contains(rk)
                ==> combined_pack_checked(
                e.combined_echos@[rk],
                guilty,
                reference.session_id,
                rk,
            ))
        },
    }
}

/// What one previous-round key must satisfy across the three part maps.
pub open spec fn previous_key_checked(
    e: ProtocolEvidence,
    guilty: u64,
    session_id: crate::message::SessionId,
    rk: u64,
) -> bool {
    &&& (e.direct_messages@.dom().contains(rk) ==> previous_part_checked(
        e.direct_messages@[rk],
        guilty,
        session_id,
        rk,
        PartKind::DirectMessage,
    ))
    &&& (e.echo_broadcasts@.dom().contains(rk) ==> previous_part_checked(
        e.echo_broadcasts@[rk],
        guilty,
        session_id,
        rk,
        PartKind::EchoBroadcast,
    ))
    &&& (e.normal_broadcasts@.dom().contains(rk) ==> previous_part_checked(
        e.normal_broadcasts@[rk],
        guilty,
        session_id,
        rk,
        PartKind::NormalBroadcast,
    ))
}

#[verifier::rlimit(100)]
#[verifier::spinoff_prover]
fn verify_protocol<R: Round>(e: &ProtocolEvidence, guilty: u64) -> (r: Result<(), EvidenceError>)
    ensures
        r is Ok ==> protocol_evidence_signed(*e, guilty) && protocol_evidence_checked(*e, guilty),
{
    // The reference metadata comes from the triggering message.
    let reference = if let Some(p) = &e.direct_message {
        p.metadata
    } else if let Some(p) = &e.echo_broadcast {
        p.metadata
    } else if let Some(p) = &e.normal_broadcast {
        p.metadata
    } else {
        return Err(
            EvidenceError::InvalidEvidence("no part of the triggering message is attached".to_owned()),
        );
    };
    let session_id = reference.session_id;
    let round_id = reference.round_id;

    // Check the triggering message's parts.
    let mut message = ProtocolMessage {
        echo_broadcast: EchoBroadcast::none(),
        normal_broadcast: NormalBroadcast::none(),
        direct_message: DirectMessage::none(),
    };
    if let Some(p) = &e.direct_message {
        if !p.verify(guilty) {
            return Err(
                EvidenceError::InvalidEvidence("an attached part is not validly signed".to_owned()),
            );
        }
        if !(p.metadata.session_id == session_id && p.metadata.round_id == round_id && matches!(
            p.metadata.kind,
            PartKind::DirectMessage,
        )) {
            return Err(
                EvidenceError::InvalidEvidence("invalid attached message metadata".to_owned()),
            );
        }
        message.direct_message = DirectMessage { payload: clone_opt_bytes(&p.payload) };
    }
    if let Some(p) = &e.echo_broadcast {
        if !p.verify(guilty) {
            return Err(
                EvidenceError::InvalidEvidence("an attached part is not validly signed".to_owned()),
            );
        }
        if !(p.metadata.session_id == session_id && p.metadata.round_id == round_id && matches!(
            p.metadata.kind,
            PartKind::EchoBroadcast,
        )) {
            return Err(
                EvidenceError::InvalidEvidence("invalid attached message metadata".to_owned()),
            );
        }
        message.echo_broadcast = EchoBroadcast { payload: clone_opt_bytes(&p.payload) };
    }
    if let Some(p) = &e.normal_broadcast {
        if !p.verify(guilty) {
            return Err(
                EvidenceError::InvalidEvidence("an attached part is not validly signed".to_owned()),
            );
        }
        if !(p.metadata.session_id == session_id && p.metadata.round_id == round_id && matches!(
            p.metadata.kind,
            PartKind::NormalBroadcast,
        )) {
            return Err(
                EvidenceError::InvalidEvidence("invalid attached message metadata".to_owned()),
            );
        }
        message.normal_broadcast = NormalBroadcast { payload: clone_opt_bytes(&p.payload) };
    }

    // Check the retained parts of previous rounds and group them by round.
    let previous_messages = match check_previous_rounds(e, guilty, session_id) {
        Ok(m) => m,
        Err(err) => {
            return Err(err);
        },
    };

    // Check the attached echo packs and extract the echoed broadcasts.
    let combined_echos = match check_combined_echos(e, guilty, session_id) {
        Ok(m) => m,
        Err(err) => {
            return Err(err);
        },
    };

    let messages = EvidenceMessages { message, previous_messages, combined_echos };
    let error_bytes = e.error_bytes.clone();
    match R::verify_evidence(&round_id, guilty, &session_id, &error_bytes, &messages) {
        Ok(()) => Ok(()),
        Err(ProtocolValidationError::Local(err)) => Err(EvidenceError::Local(err)),
        Err(ProtocolValidationError::InvalidEvidence(m)) => Err(EvidenceError::InvalidEvidence(m)),
    }
}

/// Checks the retained parts of every previous round against the guilty
/// party and the triggering message's session, grouping them by round.
#[verifier::rlimit(100)]
#[verifier::spinoff_prover]
fn check_previous_rounds(
    e: &ProtocolEvidence,
    guilty: u64,
    session_id: crate::message::SessionId,
) -> (r: Result<IdMap<ProtocolMessage>, EvidenceError>)
    ensures
        r is Ok ==> ({
            &&& (forall|rk: u64| #[trigger] e.direct_messages@.dom().contains(rk)
                ==> previous_part_checked(
                e.direct_messages@[rk],
                guilty,
                session_id,
                rk,
                PartKind::DirectMessage,
            ))
            &&& (forall|rk: u64| #[trigger] e.echo_broadcasts@.dom().contains(rk)
                ==> previous_part_checked(
                e.echo_broadcasts@[rk],
                guilty,
                session_id,
                rk,
                PartKind::EchoBroadcast,
            ))
            &&& (forall|rk: u64| #[trigger] e.normal_broadcasts@.dom().contains(rk)
                ==> previous_part_checked(
                e.normal_broadcasts@[rk],
                guilty,
                session_id,
                rk,
                PartKind::NormalBroadcast,
            ))
            &&& parts_seq_signed(part_views(e.direct_messages.elems()), guilty)
            &&& parts_seq_signed(part_views(e.echo_broadcasts.elems()), guilty)
            &&& parts_seq_signed(part_views(e.normal_broadcasts.elems()), guilty)
        }),
{
    let mut keys = IdSet::new();
    collect_keys(&mut keys, &e.direct_messages);
    collect_keys(&mut keys, &e.echo_broadcasts);
    collect_keys(&mut keys, &e.normal_broadcasts);
    keys.elems_facts();
    let mut previous_messages: IdMap<ProtocolMessage> = IdMap::new();
    let nkeys = keys.len();
    let mut i: usize = 0;
    while i < nkeys
        invariant
            i <= nkeys,
            nkeys == keys.elems().len(),
            forall|j: int| 0 <= j < i ==> previous_key_checked(
                *e,
                guilty,
                session_id,
                #[trigger] keys.elems()[j],
            ),
        decreases nkeys - i,
    {
        let key = keys.at(i);
        let dm = match check_previous_part(
            e.direct_messages.get(key),
            guilty,
            session_id,
            key,
            PartKind::DirectMessage,
        ) {
            Ok(p) => p,
            Err(err) => {
                return Err(err);
            },
        };
        let eb = match check_previous_part(
            e.echo_broadcasts.get(key),
            guilty,
            session_id,
            key,
            PartKind::EchoBroadcast,
        ) {
            Ok(p) => p,
            Err(err) => {
                return Err(err);
            },
        };
        let nb = match check_previous_part(
            e.normal_broadcasts.get(key),
            guilty,
            session_id,
            key,
            PartKind::NormalBroadcast,
        ) {
            Ok(p) => p,
            Err(err) => {
                return Err(err);
            },
        };
        let parts = ProtocolMessage {
            echo_broadcast: EchoBroadcast { payload: eb },
            normal_broadcast: NormalBroadcast { payload: nb },
            direct_message: DirectMessage { payload: dm },
        };
        if previous_messages.contains_key(key) {
            return Err(EvidenceError::InvalidEvidence("a round is attached twice".to_owned()));
        }
        previous_messages.insert(key, parts);
        i += 1;
    }
    e.direct_messages.entries_facts();
    e.echo_broadcasts.entries_facts();
    e.normal_broadcasts.entries_facts();
    proof {
        assert forall|rk: u64| #[trigger] e.direct_messages@.dom().contains(rk)
            implies previous_part_checked(
            e.direct_messages@[rk],
            guilty,
            session_id,
            rk,
            PartKind::DirectMessage,
        ) by {
            assert(keys@.contains(rk));
            assert(crate::utils::has_id(keys.elems(), rk));
            let j = choose|j: int| 0 <= j < keys.elems().len() && keys.elems()[j] == rk;
            assert(previous_key_checked(*e, guilty, session_id, keys.elems()[j]));
        }
        assert forall|rk: u64| #[trigger] e.echo_broadcasts@.dom().contains(rk)
            implies previous_part_checked(
            e.echo_broadcasts@[rk],
            guilty,
            session_id,
            rk,
            PartKind::EchoBroadcast,
        ) by {
            assert(keys@.contains(rk));
            assert(crate::utils::has_id(keys.elems(), rk));
            let j = choose|j: int| 0 <= j < keys.elems().len() && keys.elems()[j] == rk;
            assert(previous_key_checked(*e, guilty, session_id, keys.elems()[j]));
        }
        assert forall|rk: u64| #[trigger] e.normal_broadcasts@.dom().contains(rk)
            implies previous_part_checked(
            e.normal_broadcasts@[rk],
            guilty,
            session_id,
            rk,
            PartKind::NormalBroadcast,
        ) by {
            assert(keys@.contains(rk));
            assert(crate::utils::has_id(keys.elems(), rk));
            let j = choose|j: int| 0 <= j < keys.elems().len() && keys.elems()[j] == rk;
            assert(previous_key_checked(*e, guilty, session_id, keys.elems()[j]));
        }
        assert forall|ii: int| 0 <= ii < part_views(e.direct_messages.elems()).len()
            implies part_signed_by((#[trigger] part_views(e.direct_messages.elems())[ii]).1, guilty) by {
            let pr = e.direct_messages.elems()[ii];
            assert(e.direct_messages@.contains_pair(pr.0, pr.1));
        }
        assert forall|ii: int| 0 <= ii < part_views(e.echo_broadcasts.elems()).len()
            implies part_signed_by((#[trigger] part_views(e.echo_broadcasts.elems())[ii]).1, guilty) by {
            let pr = e.echo_broadcasts.elems()[ii];
            assert(e.echo_broadcasts@.contains_pair(pr.0, pr.1));
        }
        assert forall|ii: int| 0 <= ii < part_views(e.normal_broadcasts.elems()).len()
            implies part_signed_by((#[trigger] part_views(e.normal_broadcasts.elems())[ii]).1, guilty) by {
            let pr = e.normal_broadcasts.elems()[ii];
            assert(e.normal_broadcasts@.contains_pair(pr.0, pr.1));
        }
    }
    Ok(previous_messages)
}

/// Checks every attached echo pack against the guilty party and extracts
/// the echoed broadcasts, by round and then by sender.
#[verifier::rlimit(100)]
#[verifier::spinoff_prover]
fn check_combined_echos(
    e: &ProtocolEvidence,
    guilty: u64,
    session_id: crate::message::SessionId,
) -> (r: Result<IdMap<IdMap<EchoBroadcast>>, EvidenceError>)
    ensures
        r is Ok ==> ({
            &&& (forall|rk: u64| #[trigger] e.combined_echos@.dom().contains(rk)
                ==> combined_pack_checked(e.combined_echos@[rk], guilty, session_id, rk))
            &&& parts_seq_signed(part_views(e.combined_echos.elems()), guilty)
        }),
{
    let mut combined_echos: IdMap<IdMap<EchoBroadcast>> = IdMap::new();
    e.combined_echos.entries_facts();
    let npacks = e.combined_echos.len();
    let mut i2: usize = 0;
    while i2 < npacks
        invariant
            i2 <= npacks,
            npacks == e.combined_echos.elems().len(),
            forall|j: int| 0 <= j < i2 ==> combined_pack_checked(
                (#[trigger] e.combined_echos.elems()[j]).1,
                guilty,
                session_id,
                e.combined_echos.elems()[j].0,
            ),
        decreases npacks - i2,
    {
        let key = e.combined_echos.key_at(i2);
        let pack_part = e.combined_echos.value_at(i2);
        if !pack_part.verify(guilty) {
            return Err(
                EvidenceError::InvalidEvidence("an attached part is not validly signed".to_owned()),
            );
        }
        let meta = pack_part.metadata;
        if !(meta.session_id == session_id && meta.round_id.is_echo() && matches!(
            meta.kind,
            PartKind::NormalBroadcast,
        ) && meta.round_id.non_echo().key() == key) {
            return Err(
                EvidenceError::InvalidEvidence("invalid attached message metadata".to_owned()),
            );
        }
        let bytes = match &pack_part.payload {
            Some(b) => b,
            None => {
                return Err(
                    EvidenceError::InvalidEvidence("an attached echo pack is absent".to_owned()),
                );
            },
        };
        let (pack, _end) = match read_pack(bytes, 0) {
            Some(v) => v,
            None => {
                return Err(
                    EvidenceError::InvalidEvidence(
                        "an attached echo pack cannot be decoded".to_owned(),
                    ),
                );
            },
        };
        let expected = Metadata {
            session_id,
            round_id: meta.round_id.non_echo(),
            kind: PartKind::EchoBroadcast,
            destination: None,
        };
        let ghost entries = part_views(pack.elems());
        let mut echoes: IdMap<EchoBroadcast> = IdMap::new();
        let nentries = pack.len();
        let mut i3: usize = 0;
        while i3 < nentries
            invariant
                i3 <= nentries,
                nentries == pack.elems().len(),
                entries == part_views(pack.elems()),
                forall|j3: int| 0 <= j3 < i3 ==> part_signed_by(
                    (#[trigger] entries[j3]).1,
                    entries[j3].0,
                ) && entries[j3].1.metadata == expected,
            decreases nentries - i3,
        {
            pack.entries_facts();
            let sender = pack.key_at(i3);
            let part = pack.value_at(i3);
            if !part.verify(sender) {
                return Err(
                    EvidenceError::InvalidEvidence(
                        "an echoed broadcast is not validly signed".to_owned(),
                    ),
                );
            }
            if !(part.metadata == expected) {
                return Err(
                    EvidenceError::InvalidEvidence("invalid attached message metadata".to_owned()),
                );
            }
            if echoes.contains_key(sender) {
                return Err(
                    EvidenceError::InvalidEvidence("a sender is echoed twice".to_owned()),
                );
            }
            echoes.insert(sender, EchoBroadcast { payload: clone_opt_bytes(&part.payload) });
            i3 += 1;
        }
        proof {
            assert(expected == echo_part_meta(session_id, meta.round_id.spec_non_echo()));
            assert(combined_pack_checked(*pack_part, guilty, session_id, key));
        }
        if combined_echos.contains_key(key) {
            return Err(EvidenceError::InvalidEvidence("a round is attached twice".to_owned()));
        }
        combined_echos.insert(key, echoes);
        i2 += 1;
    }
    proof {
        assert forall|rk: u64| #[trigger] e.combined_echos@.dom().contains(rk)
            implies combined_pack_checked(e.combined_echos@[rk], guilty, session_id, rk) by {
            assert(crate::utils::has_key(e.combined_echos.elems(), rk));
            let j = choose|j: int|
                0 <= j < e.combined_echos.elems().len() && (
                #[trigger] e.combined_echos.elems()[j]).0 == rk;
            assert(e.combined_echos@.contains_pair(rk, e.combined_echos.elems()[j].1));
        }
        assert forall|ii: int| 0 <= ii < part_views(e.combined_echos.elems()).len()
            implies part_signed_by((#[trigger] part_views(e.combined_echos.elems())[ii]).1, guilty) by {
            let pr = e.combined_echos.elems()[ii];
            assert(e.combined_echos@.contains_pair(pr.0, pr.1));
        }
    }
    Ok(combined_echos)
}

fn collect_keys(keys: &mut IdSet, m: &IdMap<SignedMessagePart>)
    ensures
        forall|k: u64| #[trigger] final(keys)@.contains(k) <==> old(keys)@.contains(k)
            || m@.dom().contains(k),
{
    m.entries_facts();
    let ghost before = keys@;
    let n = m.len();
    let mut i: usize = 0;
    while i < n
        invariant
            i <= n,
            n == m.elems().len(),
            forall|k: u64| #[trigger] keys@.contains(k) <==> before.contains(k) || (exists|j: int|
                0 <= j < i && (#[trigger] m.elems()[j]).0 == k),
        decreases n - i,
    {
        let key = m.key_at(i);
        if !keys.contains(key) {
            keys.insert(key);
        }
        i += 1;
    }
    proof {
        assert forall|k: u64| #[trigger] keys@.contains(k) implies before.contains(k)
            || m@.dom().contains(k) by {
            if !before.contains(k) {
                let j = choose|j: int|
                    0 <= j < m.elems().len() && (#[trigger] m.elems()[j]).0 == k;
                assert(m@.contains_pair(k, m.elems()[j].1));
            }
        }
        assert forall|k: u64| before.contains(k) || m@.dom().contains(k)
            implies #[trigger] keys@.contains(k) by {
            if m@.dom().contains(k) {
                assert(crate::utils::has_key(m.elems(), k));
            }
        }
    }
}

fn check_previous_part(
    part: Option<&SignedMessagePart>,
    guilty: u64,
    session_id: crate::message::SessionId,
    key: u64,
    kind: PartKind,
) -> (r: Result<Option<Vec<u8>>, EvidenceError>)
    ensures
        r matches Ok(_) ==> (match part {
            Some(p) => previous_part_checked(*p, guilty, session_id, key, kind),
            None => true,
        }),
{
    let p = match part {
        Some(p) => p,
        None => {
            return Ok(None);
        },
    };
    if !p.verify(guilty) {
        return Err(
            EvidenceError::InvalidEvidence("an attached part is not validly signed".to_owned()),
        );
    }
    if !(p.metadata.session_id == session_id && p.metadata.round_id.key() == key
        && p.metadata.kind == kind) {
        return Err(EvidenceError::InvalidEvidence("invalid attached message metadata".to_owned()));
    }
    Ok(clone_opt_bytes(&p.payload))
}


/// At least one of the declared this-round parts is actually available to
/// retain.
pub open spec fn kept_this_round_nonempty(
    required: crate::round::RequiredMessageParts,
    direct_message: Option<SignedMessagePart>,
    echo_broadcast: Option<SignedMessagePart>,
    normal_broadcast: Option<SignedMessagePart>,
) -> bool {
    ||| (required.direct_message && direct_message is Some)
    ||| (required.echo_broadcast && echo_broadcast is Some)
    ||| (required.normal_broadcast && normal_broadcast is Some)
}

/// Every part the declaration requires from previous rounds is in the
/// transcript for the guilty party, under a representable round key.
pub open spec fn previous_rounds_available(
    t: crate::transcript::Transcript,
    guilty: u64,
    previous: Option<IdMap<crate::round::RequiredMessageParts>>,
) -> bool {
    match previous {
        None => true,
        Some(m) => forall|rk: u64| #[trigger] m@.dom().contains(rk) ==> rk < 512 && (
        m@[rk].direct_message ==> crate::transcript::stored_part(
            t.direct_messages@,
            rk,
            guilty,
        ) is Some) && (m@[rk].echo_broadcast ==> crate::transcript::stored_part(
            t.echo_broadcasts@,
            rk,
            guilty,
        ) is Some) && (m@[rk].normal_broadcast ==> crate::transcript::stored_part(
            t.normal_broadcasts@,
            rk,
            guilty,
        ) is Some),
    }
}

/// Every echo pack the declaration requires is in the transcript: the
/// guilty party's normal broadcast of the named round's echo sub-round.
pub open spec fn combined_echos_available(
    t: crate::transcript::Transcript,
    guilty: u64,
    rounds: Option<IdSet>,
) -> bool {
    match rounds {
        None => true,
        Some(set) => forall|rk: u64| #[trigger] set@.contains(rk) ==> rk < 512 && rk % 2 == 0
            && crate::transcript::stored_part(
            t.normal_broadcasts@,
            (rk + 1) as u64,
            guilty,
        ) is Some,
    }
}

impl Evidence {
    /// Evidence for a protocol-defined rejection: snapshots, from the
    /// triggering message and the transcript, exactly the signed messages
    /// that the error's declaration retains. Required data missing from the
    /// transcript is a bug and is refused.
    #[verifier::rlimit(100)]
    #[verifier::spinoff_prover]
    pub fn new_protocol_error(
        guilty_party: u64,
        echo_broadcast: Option<SignedMessagePart>,
        normal_broadcast: Option<SignedMessagePart>,
        direct_message: Option<SignedMessagePart>,
        error: crate::round::ProvableError,
        transcript: &crate::transcript::Transcript,
        Ghost(session_id): Ghost<crate::message::SessionId>,
        Ghost(me): Ghost<u64>,
    ) -> (r: Result<Self, LocalError>)
        requires
            transcript.parts_wf(session_id, me),
            (match direct_message {
                Some(p) => part_signed_by(p@, guilty_party),
                None => true,
            }),
            (match echo_broadcast {
                Some(p) => part_signed_by(p@, guilty_party),
                None => true,
            }),
            (match normal_broadcast {
                Some(p) => part_signed_by(p@, guilty_party),
                None => true,
            }),
        ensures
            r is Ok <==> (kept_this_round_nonempty(
                error.required_messages.this_round,
                direct_message,
                echo_broadcast,
                normal_broadcast,
            ) && previous_rounds_available(
                *transcript,
                guilty_party,
                error.required_messages.previous_rounds,
            ) && combined_echos_available(
                *transcript,
                guilty_party,
                error.required_messages.combined_echos,
            )),
            r matches Ok(ev) ==> ev.guilty_party == guilty_party && evidence_valid(ev)
                && ev.description@ == error.description@ && (match ev.evidence {
                EvidenceEnum::Protocol(p) => ({
                    &&& p.error_bytes@ == error.error_bytes@
                    &&& opt_part_view(p.direct_message) == (
                    if error.required_messages.this_round.direct_message {
                        opt_part_view(direct_message)
                    } else {
                        None
                    })
                    &&& opt_part_view(p.echo_broadcast) == (
                    if error.required_messages.this_round.echo_broadcast {
                        opt_part_view(echo_broadcast)
                    } else {
                        None
                    })
                    &&& opt_part_view(p.normal_broadcast) == (
                    if error.required_messages.this_round.normal_broadcast {
                        opt_part_view(normal_broadcast)
                    } else {
                        None
                    })
                    &&& (forall|rk: u64| #[trigger] p.direct_messages@.dom().contains(rk)
                        <==> (match error.required_messages.previous_rounds {
                        Some(m) => m@.dom().contains(rk) && m@[rk].direct_message,
                        None => false,
                    }))
                    &&& (forall|rk: u64| #[trigger] p.direct_messages@.dom().contains(rk)
                        ==> Some(p.direct_messages@[rk]@) == crate::transcript::stored_part(
                        transcript.direct_messages@,
                        rk,
                        guilty_party,
                    ))
                    &&& (forall|rk: u64| #[trigger] p.echo_broadcasts@.dom().contains(rk)
                        <==> (match error.required_messages.previous_rounds {
                        Some(m) => m@.dom().contains(rk) && m@[rk].echo_broadcast,
                        None => false,
                    }))
                    &&& (forall|rk: u64| #[trigger] p.echo_broadcasts@.dom().contains(rk)
                        ==> Some(p.echo_broadcasts@[rk]@) == crate::transcript::stored_part(
                        transcript.echo_broadcasts@,
                        rk,
                        guilty_party,
                    ))
                    &&& (forall|rk: u64| #[trigger] p.normal_broadcasts@.dom().contains(rk)
                        <==> (match error.required_messages.previous_rounds {
                        Some(m) => m@.dom().contains(rk) && m@[rk].normal_broadcast,
                        None => false,
                    }))
                    &&& (forall|rk: u64| #[trigger] p.normal_broadcasts@.dom().contains(rk)
                        ==> Some(p.normal_broadcasts@[rk]@) == crate::transcript::stored_part(
                        transcript.normal_broadcasts@,
                        rk,
                        guilty_party,
                    ))
                    &&& (forall|rk: u64| #[trigger] p.combined_echos@.dom().contains(rk)
                        <==> (match error.required_messages.combined_echos {
                        Some(set) => set@.contains(rk),
                        None => false,
                    }))
                    &&& (forall|rk: u64| #[trigger] p.combined_echos@.dom().contains(rk)
                        ==> Some(p.combined_echos@[rk]@) == crate::transcript::stored_part(
                        transcript.normal_broadcasts@,
                        (rk + 1) as u64,
                        guilty_party,
                    ))
                }),
                _ => false,
            }),
    {
        let required = &error.required_messages;
        let kept_direct = if required.this_round.direct_message {
            direct_message
        } else {
            None
        };
        let kept_echo = if required.this_round.echo_broadcast {
            echo_broadcast
        } else {
            None
        };
        let kept_normal = if required.this_round.normal_broadcast {
            normal_broadcast
        } else {
            None
        };
        if kept_direct.is_none() && kept_echo.is_none() && kept_normal.is_none() {
            return Err(
                LocalError::new(
                    "no retained part of the triggering message is available".to_owned(),
                ),
            );
        }

        let mut direct_messages: IdMap<SignedMessagePart> = IdMap::new();
        let mut echo_broadcasts: IdMap<SignedMessagePart> = IdMap::new();
        let mut normal_broadcasts: IdMap<SignedMessagePart> = IdMap::new();
        if let Some(previous) = &required.previous_rounds {
            previous.entries_facts();
            let n = previous.len();
            let mut i: usize = 0;
            while i < n
                invariant
                    i <= n,
                    n == previous.elems().len(),
                    parts_seq_signed(part_views(direct_messages.elems()), guilty_party),
                    parts_seq_signed(part_views(echo_broadcasts.elems()), guilty_party),
                    parts_seq_signed(part_views(normal_broadcasts.elems()), guilty_party),
                    forall|j: int| 0 <= j < i ==> (#[trigger] previous.elems()[j]).0 < 512 && (
                    previous.elems()[j].1.direct_message ==> crate::transcript::stored_part(
                        transcript.direct_messages@,
                        previous.elems()[j].0,
                        guilty_party,
                    ) is Some) && (previous.elems()[j].1.echo_broadcast
                        ==> crate::transcript::stored_part(
                        transcript.echo_broadcasts@,
                        previous.elems()[j].0,
                        guilty_party,
                    ) is Some) && (previous.elems()[j].1.normal_broadcast
                        ==> crate::transcript::stored_part(
                        transcript.normal_broadcasts@,
                        previous.elems()[j].0,
                        guilty_party,
                    ) is Some),
                    forall|rk: u64| #[trigger] direct_messages@.dom().contains(rk) <==> (exists|j: int|
                        0 <= j < i && (#[trigger] previous.elems()[j]).0 == rk
                            && previous.elems()[j].1.direct_message),
                    forall|rk: u64| #[trigger] direct_messages@.dom().contains(rk) ==> Some(
                        direct_messages@[rk]@,
                    ) == crate::transcript::stored_part(
                        transcript.direct_messages@,
                        rk,
                        guilty_party,
                    ),
                    forall|rk: u64| #[trigger] echo_broadcasts@.dom().contains(rk) <==> (exists|j: int|
                        0 <= j < i && (#[trigger] previous.elems()[j]).0 == rk
                            && previous.elems()[j].1.echo_broadcast),
                    forall|rk: u64| #[trigger] echo_broadcasts@.dom().contains(rk) ==> Some(
                        echo_broadcasts@[rk]@,
                    ) == crate::transcript::stored_part(
                        transcript.echo_broadcasts@,
                        rk,
                        guilty_party,
                    ),
                    forall|rk: u64| #[trigger] normal_broadcasts@.dom().contains(rk) <==> (exists|j: int|
                        0 <= j < i && (#[trigger] previous.elems()[j]).0 == rk
                            && previous.elems()[j].1.normal_broadcast),
                    forall|rk: u64| #[trigger] normal_broadcasts@.dom().contains(rk) ==> Some(
                        normal_broadcasts@[rk]@,
                    ) == crate::transcript::stored_part(
                        transcript.normal_broadcasts@,
                        rk,
                        guilty_party,
                    ),
                decreases n - i,
            {
                previous.entries_facts();
                direct_messages.entries_facts();
                echo_broadcasts.entries_facts();
                normal_broadcasts.entries_facts();
                let key = previous.key_at(i);
                let parts = previous.value_at(i);
                proof {
                    assert(previous@.contains_pair(key, *parts));
                }
                let round_id = match RoundId::from_key(key) {
                    Some(id) => id,
                    None => {
                        return Err(LocalError::new("a round key is out of range".to_owned()));
                    },
                };
                if parts.direct_message {
                    let part = match transcript.get_direct_message(round_id, guilty_party) {
                        Ok(p) => p,
                        Err(e) => {
                            return Err(e);
                        },
                    };
                    if direct_messages.contains_key(key) {
                        proof {
                            let j = choose|j: int|
                                0 <= j < i && (#[trigger] previous.elems()[j]).0 == key
                                    && previous.elems()[j].1.direct_message;
                            assert(previous.elems()[j].0 == previous.elems()[i as int].0);
                            assert(false);
                        }
                        return Err(LocalError::new("a round is declared twice".to_owned()));
                    }
                    let ghost before = direct_messages.elems();
                    direct_messages.insert(key, part);
                    proof {
                        assert(part_views(direct_messages.elems()) =~= part_views(before).push(
                            (key, part@),
                        ));
                    }
                }
                if parts.echo_broadcast {
                    let part = match transcript.get_echo_broadcast(round_id, guilty_party) {
                        Ok(p) => p,
                        Err(e) => {
                            return Err(e);
                        },
                    };
                    if echo_broadcasts.contains_key(key) {
                        proof {
                            let j = choose|j: int|
                                0 <= j < i && (#[trigger] previous.elems()[j]).0 == key
                                    && previous.elems()[j].1.echo_broadcast;
                            assert(previous.elems()[j].0 == previous.elems()[i as int].0);
                            assert(false);
                        }
                        return Err(LocalError::new("a round is declared twice".to_owned()));
                    }
                    let ghost before = echo_broadcasts.elems();
                    echo_broadcasts.insert(key, part);
                    proof {
                        assert(part_views(echo_broadcasts.elems()) =~= part_views(before).push(
                            (key, part@),
                        ));
                    }
                }
                if parts.normal_broadcast {
                    let part = match transcript.get_normal_broadcast(round_id, guilty_party) {
                        Ok(p) => p,
                        Err(e) => {
                            return Err(e);
                        },
                    };
                    if normal_broadcasts.contains_key(key) {
                        proof {
                            let j = choose|j: int|
                                0 <= j < i && (#[trigger] previous.elems()[j]).0 == key
                                    && previous.elems()[j].1.normal_broadcast;
                            assert(previous.elems()[j].0 == previous.elems()[i as int].0);
                            assert(false);
                        }
                        return Err(LocalError::new("a round is declared twice".to_owned()));
                    }
                    let ghost before = normal_broadcasts.elems();
                    normal_broadcasts.insert(key, part);
                    proof {
                        assert(part_views(normal_broadcasts.elems()) =~= part_views(before).push(
                            (key, part@),
                        ));
                    }
                }
                i += 1;
            }
            proof {
                assert forall|rk: u64| #[trigger] previous@.dom().contains(rk) implies rk < 512
                    && (previous@[rk].direct_message ==> crate::transcript::stored_part(
                    transcript.direct_messages@,
                    rk,
                    guilty_party,
                ) is Some) && (previous@[rk].echo_broadcast ==> crate::transcript::stored_part(
                    transcript.echo_broadcasts@,
                    rk,
                    guilty_party,
                ) is Some) && (previous@[rk].normal_broadcast ==> crate::transcript::stored_part(
                    transcript.normal_broadcasts@,
                    rk,
                    guilty_party,
                ) is Some) by {
                    assert(crate::utils::has_key(previous.elems(), rk));
                    let j = choose|j: int|
                        0 <= j < previous.elems().len() && (#[trigger] previous.elems()[j]).0
                            == rk;
                    assert(previous@.contains_pair(rk, previous.elems()[j].1));
                }
                assert forall|rk: u64|
                    previous@.dom().contains(rk) && previous@[rk].direct_message
                        implies #[trigger] direct_messages@.dom().contains(rk) by {
                    assert(crate::utils::has_key(previous.elems(), rk));
                    let j = choose|j: int|
                        0 <= j < previous.elems().len() && (#[trigger] previous.elems()[j]).0
                            == rk;
                    assert(previous@.contains_pair(rk, previous.elems()[j].1));
                }
                assert forall|rk: u64|
                    previous@.dom().contains(rk) && previous@[rk].echo_broadcast
                        implies #[trigger] echo_broadcasts@.dom().contains(rk) by {
                    assert(crate::utils::has_key(previous.elems(), rk));
                    let j = choose|j: int|
                        0 <= j < previous.elems().len() && (#[trigger] previous.elems()[j]).0
                            == rk;
                    assert(previous@.contains_pair(rk, previous.elems()[j].1));
                }
                assert forall|rk: u64|
                    previous@.dom().contains(rk) && previous@[rk].normal_broadcast
                        implies #[trigger] normal_broadcasts@.dom().contains(rk) by {
                    assert(crate::utils::has_key(previous.elems(), rk));
                    let j = choose|j: int|
                        0 <= j < previous.elems().len() && (#[trigger] previous.elems()[j]).0
                            == rk;
                    assert(previous@.contains_pair(rk, previous.elems()[j].1));
                }
                assert forall|rk: u64| #[trigger] direct_messages@.dom().contains(rk)
                    implies previous@.dom().contains(rk) && previous@[rk].direct_message by {
                    let j = choose|j: int|
                        0 <= j < previous.elems().len() && (#[trigger] previous.elems()[j]).0
                            == rk && previous.elems()[j].1.direct_message;
                    assert(previous@.contains_pair(rk, previous.elems()[j].1));
                }
                assert forall|rk: u64| #[trigger] echo_broadcasts@.dom().contains(rk)
                    implies previous@.dom().contains(rk) && previous@[rk].echo_broadcast by {
                    let j = choose|j: int|
                        0 <= j < previous.elems().len() && (#[trigger] previous.elems()[j]).0
                            == rk && previous.elems()[j].1.echo_broadcast;
                    assert(previous@.contains_pair(rk, previous.elems()[j].1));
                }
                assert forall|rk: u64| #[trigger] normal_broadcasts@.dom().contains(rk)
                    implies previous@.dom().contains(rk) && previous@[rk].normal_broadcast by {
                    let j = choose|j: int|
                        0 <= j < previous.elems().len() && (#[trigger] previous.elems()[j]).0
                            == rk && previous.elems()[j].1.normal_broadcast;
                    assert(previous@.contains_pair(rk, previous.elems()[j].1));
                }
            }
        }

        let mut combined_echos: IdMap<SignedMessagePart> = IdMap::new();
        if let Some(rounds) = &required.combined_echos {
            rounds.elems_facts();
            let n = rounds.len();
            let mut i: usize = 0;
            while i < n
                invariant
                    i <= n,
                    n == rounds.elems().len(),
                    parts_seq_signed(part_views(combined_echos.elems()), guilty_party),
                    forall|j: int| 0 <= j < i ==> (#[trigger] rounds.elems()[j]) < 512
                        && rounds.elems()[j] % 2 == 0 && crate::transcript::stored_part(
                        transcript.normal_broadcasts@,
                        (rounds.elems()[j] + 1) as u64,
                        guilty_party,
                    ) is Some,
                    forall|rk: u64| #[trigger] combined_echos@.dom().contains(rk) <==> (exists|j: int|
                        0 <= j < i && (#[trigger] rounds.elems()[j]) == rk),
                    forall|rk: u64| #[trigger] combined_echos@.dom().contains(rk) ==> Some(
                        combined_echos@[rk]@,
                    ) == crate::transcript::stored_part(
                        transcript.normal_broadcasts@,
                        (rk + 1) as u64,
                        guilty_party,
                    ),
                decreases n - i,
            {
                combined_echos.entries_facts();
                let key = rounds.at(i);
                let round_id = match RoundId::from_key(key) {
                    Some(id) => id,
                    None => {
                        return Err(LocalError::new("a round key is out of range".to_owned()));
                    },
                };
                if round_id.is_echo() {
                    proof {
                        assert(key % 2 == 1);
                    }
                    return Err(
                        LocalError::new("combined echos of an echo round are declared".to_owned()),
                    );
                }
                let echo_id = round_id.echo();
                proof {
                    assert(key % 2 == 0);
                    assert(echo_id.spec_key() == key + 1);
                }
                let pack = match transcript.get_normal_broadcast(echo_id, guilty_party) {
                    Ok(p) => p,
                    Err(e) => {
                        return Err(e);
                    },
                };
                if combined_echos.contains_key(key) {
                    proof {
                        let j = choose|j: int|
                            0 <= j < i && (#[trigger] rounds.elems()[j]) == key;
                        assert(rounds.elems()[j] == rounds.elems()[i as int]);
                        assert(false);
                    }
                    return Err(LocalError::new("a round is declared twice".to_owned()));
                }
                let ghost before = combined_echos.elems();
                combined_echos.insert(key, pack);
                proof {
                    assert(part_views(combined_echos.elems()) =~= part_views(before).push(
                        (key, pack@),
                    ));
                }
                i += 1;
            }
            proof {
                assert forall|rk: u64| #[trigger] rounds@.contains(rk) implies rk < 512 && rk % 2
                    == 0 && crate::transcript::stored_part(
                    transcript.normal_broadcasts@,
                    (rk + 1) as u64,
                    guilty_party,
                ) is Some by {
                    assert(crate::utils::has_id(rounds.elems(), rk));
                }
                assert forall|rk: u64| #[trigger] rounds@.contains(rk)
                    implies combined_echos@.dom().contains(rk) by {
                    assert(crate::utils::has_id(rounds.elems(), rk));
                }
                assert forall|rk: u64| #[trigger] combined_echos@.dom().contains(rk)
                    implies rounds@.contains(rk) by {
                    let j = choose|j: int|
                        0 <= j < rounds.elems().len() && (#[trigger] rounds.elems()[j]) == rk;
                    assert(crate::utils::has_id(rounds.elems(), rk));
                }
            }
        }

        Ok(
            Evidence {
                guilty_party,
                description: error.description,
                evidence: EvidenceEnum::Protocol(
                    ProtocolEvidence {
                        error_bytes: error.error_bytes,
                        direct_message: kept_direct,
                        echo_broadcast: kept_echo,
                        normal_broadcast: kept_normal,
                        direct_messages,
                        echo_broadcasts,
                        normal_broadcasts,
                        combined_echos,
                    },
                ),
            },
        )
    }
}



/// The mathematical content of a protocol evidence.
pub ghost struct ProtocolEvidenceView {
    /// The serialized error.
    pub error_bytes: Seq<u8>,
    /// The triggering direct part, if retained.
    pub direct_message: Option<SignedPartView>,
    /// The triggering echo-broadcast part, if retained.
    pub echo_broadcast: Option<SignedPartView>,
    /// The triggering normal-broadcast part, if retained.
    pub normal_broadcast: Option<SignedPartView>,
    /// Retained direct messages of previous rounds.
    pub direct_messages: Seq<(u64, SignedPartView)>,
    /// Retained echo broadcasts of previous rounds.
    pub echo_broadcasts: Seq<(u64, SignedPartView)>,
    /// Retained normal broadcasts of previous rounds.
    pub normal_broadcasts: Seq<(u64, SignedPartView)>,
    /// The guilty party's echo packs for previous rounds.
    pub combined_echos: Seq<(u64, SignedPartView)>,
}

/// The mathematical content of the evidence variants.
pub ghost enum EvidenceEnumView {
    /// A protocol-defined rejection.
    Protocol(ProtocolEvidenceView),
    /// An invalid direct message.
    InvalidDirectMessage(SignedPartView),
    /// An invalid echo broadcast.
    InvalidEchoBroadcast(SignedPartView),
    /// An invalid normal broadcast.
    InvalidNormalBroadcast(SignedPartView),
    /// An invalid entry in an echo pack.
    InvalidEchoPack {
        /// The guilty party's echo pack.
        echo_pack: SignedPartView,
        /// The sender whose entry does not check out.
        invalid_echo_sender: u64,
    },
    /// Two contradictory signed echo broadcasts.
    MismatchedBroadcasts {
        /// The broadcast received directly.
        we_received: SignedPartView,
        /// The broadcast another node received.
        echoed_to_us: SignedPartView,
    },
}

/// The mathematical content of an evidence.
pub ghost struct EvidenceView {
    /// The party the evidence is against.
    pub guilty_party: u64,
    /// The description of the misbehavior.
    pub description: Seq<char>,
    /// The evidence itself.
    pub evidence: EvidenceEnumView,
}

impl View for ProtocolEvidence {
    type V = ProtocolEvidenceView;

    open spec fn view(&self) -> ProtocolEvidenceView {
        ProtocolEvidenceView {
            error_bytes: self.error_bytes@,
            direct_message: opt_part_view(self.direct_message),
            echo_broadcast: opt_part_view(self.echo_broadcast),
            normal_broadcast: opt_part_view(self.normal_broadcast),
            direct_messages: part_views(self.direct_messages.elems()),
            echo_broadcasts: part_views(self.echo_broadcasts.elems()),
            normal_broadcasts: part_views(self.normal_broadcasts.elems()),
            combined_echos: part_views(self.combined_echos.elems()),
        }
    }
}

/// The view of an optional signed part.
pub open spec fn opt_part_view(o: Option<SignedMessagePart>) -> Option<SignedPartView> {
    match o {
        None => None,
        Some(p) => Some(p@),
    }
}

impl View for Evidence {
    type V = EvidenceView;

    open spec fn view(&self) -> EvidenceView {
        EvidenceView {
            guilty_party: self.guilty_party,
            description: self.description@,
            evidence: match self.evidence {
                EvidenceEnum::Protocol(e) => EvidenceEnumView::Protocol(e@),
                EvidenceEnum::InvalidDirectMessage(e) => EvidenceEnumView::InvalidDirectMessage(
                    e.direct_message@,
                ),
                EvidenceEnum::InvalidEchoBroadcast(e) => EvidenceEnumView::InvalidEchoBroadcast(
                    e.echo_broadcast@,
                ),
                EvidenceEnum::InvalidNormalBroadcast(e) => EvidenceEnumView::InvalidNormalBroadcast(
                    e.normal_broadcast@,
                ),
                EvidenceEnum::InvalidEchoPack(e) => EvidenceEnumView::InvalidEchoPack {
                    echo_pack: e.echo_pack@,
                    invalid_echo_sender: e.invalid_echo_sender,
                },
                EvidenceEnum::MismatchedBroadcasts(e) => EvidenceEnumView::MismatchedBroadcasts {
                    we_received: e.we_received@,
                    echoed_to_us: e.echoed_to_us@,
                },
            },
        }
    }
}

/// The encoding of an optional signed part: a tag byte, then the part.
pub open spec fn enc_opt_part(o: Option<SignedPartView>) -> Seq<u8> {
    match o {
        None => seq![0u8],
        Some(p) => seq![1u8] + enc_signed_part(p),
    }
}

/// The optional signed part starting at `pos`, by the spec of the format.
pub open spec fn dec_opt_part(s: Seq<u8>, pos: int) -> Option<(Option<SignedPartView>, int)> {
    if 0 <= pos < s.len() {
        if s[pos] == 0u8 {
            Some((None, pos + 1))
        } else if s[pos] == 1u8 {
            match dec_signed_part(s, pos + 1) {
                None => None,
                Some((p, next)) => Some((Some(p), next)),
            }
        } else {
            None
        }
    } else {
        None
    }
}

fn write_opt_part(out: &mut Vec<u8>, o: &Option<SignedMessagePart>)
    ensures
        final(out)@ == old(out)@ + enc_opt_part(opt_part_view(*o)),
{
    match o {
        None => {
            out.push(0u8);
            assert(out@ =~= old(out)@ + enc_opt_part(None));
        },
        Some(p) => {
            out.push(1u8);
            write_signed_part(out, p);
            assert(out@ =~= old(out)@ + enc_opt_part(Some(p@)));
        },
    }
}

fn read_opt_part(bytes: &Vec<u8>, pos: usize) -> (r: Option<(Option<SignedMessagePart>, usize)>)
    ensures
        match r {
            Some((o, next)) => dec_opt_part(bytes@, pos as int) == Some(
                (opt_part_view(o), next as int),
            ),
            None => dec_opt_part(bytes@, pos as int) is None,
        },
{
    if pos >= bytes.len() {
        return None;
    }
    let tag = bytes[pos];
    if tag == 0 {
        Some((None, pos + 1))
    } else if tag == 1 {
        match read_signed_part(bytes, pos + 1) {
            Some((p, next)) => Some((Some(p), next)),
            None => None,
        }
    } else {
        None
    }
}

proof fn lemma_opt_part_round_trip(s: Seq<u8>, pos: int, o: Option<SignedPartView>)
    requires
        0 <= pos,
        pos + enc_opt_part(o).len() <= s.len(),
        (match o {
            Some(p) => match p.payload {
                Some(b) => b.len() < 0x1_0000_0000_0000_0000,
                None => true,
            },
            None => true,
        }),
        s.subrange(pos, pos + enc_opt_part(o).len()) == enc_opt_part(o),
    ensures
        dec_opt_part(s, pos) == Some((o, pos + enc_opt_part(o).len())),
{
    let e = enc_opt_part(o);
    assert(s[pos] == e[0]);
    match o {
        None => {},
        Some(p) => {
            assert(s.subrange(pos + 1, pos + e.len()) =~= e.subrange(1, e.len() as int));
            assert(e.subrange(1, e.len() as int) =~= enc_signed_part(p));
            lemma_signed_part_round_trip(s, pos + 1, p);
        },
    }
}

/// The byte standing for an evidence variant in encodings.
pub open spec fn evidence_tag(v: EvidenceEnumView) -> u8 {
    match v {
        EvidenceEnumView::Protocol(_) => 0u8,
        EvidenceEnumView::InvalidDirectMessage(_) => 1u8,
        EvidenceEnumView::InvalidEchoBroadcast(_) => 2u8,
        EvidenceEnumView::InvalidNormalBroadcast(_) => 3u8,
        EvidenceEnumView::InvalidEchoPack { .. } => 4u8,
        EvidenceEnumView::MismatchedBroadcasts { .. } => 5u8,
    }
}

/// The encoding of an evidence: the guilty party, the description, the
/// variant tag, and the variant's fields.
pub open spec fn enc_evidence(v: EvidenceView) -> Seq<u8> {
    enc_u64(v.guilty_party) + enc_string(v.description) + seq![evidence_tag(v.evidence)] + (
    match v.evidence {
        EvidenceEnumView::Protocol(p) => enc_bytes(p.error_bytes) + enc_opt_part(p.direct_message)
            + enc_opt_part(p.echo_broadcast) + enc_opt_part(p.normal_broadcast) + enc_pack(
            p.direct_messages,
        ) + enc_pack(p.echo_broadcasts) + enc_pack(p.normal_broadcasts) + enc_pack(
            p.combined_echos,
        ),
        EvidenceEnumView::InvalidDirectMessage(p) => enc_signed_part(p),
        EvidenceEnumView::InvalidEchoBroadcast(p) => enc_signed_part(p),
        EvidenceEnumView::InvalidNormalBroadcast(p) => enc_signed_part(p),
        EvidenceEnumView::InvalidEchoPack { echo_pack, invalid_echo_sender } => enc_signed_part(
            echo_pack,
        ) + enc_u64(invalid_echo_sender),
        EvidenceEnumView::MismatchedBroadcasts { we_received, echoed_to_us } => enc_signed_part(
            we_received,
        ) + enc_signed_part(echoed_to_us),
    })
}

/// The evidence starting at `pos`, by the spec of the format.
pub open spec fn dec_evidence(s: Seq<u8>, pos: int) -> Option<(EvidenceView, int)> {
    if pos + 8 <= s.len() {
        let guilty_party = u64_of_bytes(s.subrange(pos, pos + 8));
        match dec_string(s, pos + 8) {
            None => None,
            Some((description, p1)) => {
                if p1 < s.len() {
                    let tag = s[p1];
                    match dec_evidence_enum(s, p1 + 1, tag) {
                        None => None,
                        Some((evidence, next)) => Some(
                            (EvidenceView { guilty_party, description, evidence }, next),
                        ),
                    }
                } else {
                    None
                }
            },
        }
    } else {
        None
    }
}

/// The evidence variant with the given tag starting at `pos`.
pub open spec fn dec_evidence_enum(s: Seq<u8>, pos: int, tag: u8) -> Option<(
    EvidenceEnumView,
    int,
)> {
    if tag == 0u8 {
        match dec_bytes(s, pos) {
            None => None,
            Some((error_bytes, p1)) => match dec_opt_part(s, p1) {
                None => None,
                Some((direct_message, p2)) => match dec_opt_part(s, p2) {
                    None => None,
                    Some((echo_broadcast, p3)) => match dec_opt_part(s, p3) {
                        None => None,
                        Some((normal_broadcast, p4)) => match dec_pack(s, p4) {
                            None => None,
                            Some((direct_messages, p5)) => match dec_pack(s, p5) {
                                None => None,
                                Some((echo_broadcasts, p6)) => match dec_pack(s, p6) {
                                    None => None,
                                    Some((normal_broadcasts, p7)) => match dec_pack(s, p7) {
                                        None => None,
                                        Some((combined_echos, p8)) => Some(
                                            (
                                                EvidenceEnumView::Protocol(
                                                    ProtocolEvidenceView {
                                                        error_bytes,
                                                        direct_message,
                                                        echo_broadcast,
                                                        normal_broadcast,
                                                        direct_messages,
                                                        echo_broadcasts,
                                                        normal_broadcasts,
                                                        combined_echos,
                                                    },
                                                ),
                                                p8,
                                            ),
                                        ),
                                    },
                                },
                            },
                        },
                    },
                },
            },
        }
    } else if tag == 1u8 {
        match dec_signed_part(s, pos) {
            None => None,
            Some((p, next)) => Some((EvidenceEnumView::InvalidDirectMessage(p), next)),
        }
    } else if tag == 2u8 {
        match dec_signed_part(s, pos) {
            None => None,
            Some((p, next)) => Some((EvidenceEnumView::InvalidEchoBroadcast(p), next)),
        }
    } else if tag == 3u8 {
        match dec_signed_part(s, pos) {
            None => None,
            Some((p, next)) => Some((EvidenceEnumView::InvalidNormalBroadcast(p), next)),
        }
    } else if tag == 4u8 {
        match dec_signed_part(s, pos) {
            None => None,
            Some((echo_pack, p1)) => {
                if p1 + 8 <= s.len() {
                    Some(
                        (
                            EvidenceEnumView::InvalidEchoPack {
                                echo_pack,
                                invalid_echo_sender: u64_of_bytes(s.subrange(p1, p1 + 8)),
                            },
                            p1 + 8,
                        ),
                    )
                } else {
                    None
                }
            },
        }
    } else if tag == 5u8 {
        match dec_signed_part(s, pos) {
            None => None,
            Some((we_received, p1)) => match dec_signed_part(s, p1) {
                None => None,
                Some((echoed_to_us, next)) => Some(
                    (EvidenceEnumView::MismatchedBroadcasts { we_received, echoed_to_us }, next),
                ),
            },
        }
    } else {
        None
    }
}

impl Evidence {
    /// Makes the encoding bounds and key-uniqueness of this evidence's
    /// content available to the caller; has no run-time effect.
    #[verifier::rlimit(100)]
    #[verifier::spinoff_prover]
    pub fn content_facts(&self)
        ensures
            evidence_view_wf(self@),
            evidence_dec_distinct(self@),
    {
        let desc_bytes = self.description.as_str().as_bytes_vec();
        let _n = desc_bytes.len();
        match &self.evidence {
            EvidenceEnum::Protocol(e) => {
                let _n2 = e.error_bytes.len();
                e.direct_messages.entries_facts();
                e.echo_broadcasts.entries_facts();
                e.normal_broadcasts.entries_facts();
                e.combined_echos.entries_facts();
                proof {
                    crate::echo::lemma_part_views_wf(e.direct_messages.elems());
                    crate::echo::lemma_part_views_wf(e.echo_broadcasts.elems());
                    crate::echo::lemma_part_views_wf(e.normal_broadcasts.elems());
                    crate::echo::lemma_part_views_wf(e.combined_echos.elems());
                    crate::echo::lemma_part_views_distinct(e.direct_messages.elems());
                    crate::echo::lemma_part_views_distinct(e.echo_broadcasts.elems());
                    crate::echo::lemma_part_views_distinct(e.normal_broadcasts.elems());
                    crate::echo::lemma_part_views_distinct(e.combined_echos.elems());
                    match &e.direct_message {
                        Some(p) => lemma_part_len_wf(*p),
                        None => {},
                    }
                    match &e.echo_broadcast {
                        Some(p) => lemma_part_len_wf(*p),
                        None => {},
                    }
                    match &e.normal_broadcast {
                        Some(p) => lemma_part_len_wf(*p),
                        None => {},
                    }
                }
            },
            EvidenceEnum::InvalidDirectMessage(e) => {
                proof {
                    lemma_part_len_wf(e.direct_message);
                }
            },
            EvidenceEnum::InvalidEchoBroadcast(e) => {
                proof {
                    lemma_part_len_wf(e.echo_broadcast);
                }
            },
            EvidenceEnum::InvalidNormalBroadcast(e) => {
                proof {
                    lemma_part_len_wf(e.normal_broadcast);
                }
            },
            EvidenceEnum::InvalidEchoPack(e) => {
                proof {
                    lemma_part_len_wf(e.echo_pack);
                }
            },
            EvidenceEnum::MismatchedBroadcasts(e) => {
                proof {
                    lemma_part_len_wf(e.we_received);
                    lemma_part_len_wf(e.echoed_to_us);
                }
            },
        }
    }

    /// Serializes the evidence for publication.
    pub fn serialize(&self) -> (r: Vec<u8>)
        ensures
            r@ == enc_evidence(self@),
    {
        let mut out: Vec<u8> = Vec::new();
        write_u64(&mut out, self.guilty_party);
        write_string(&mut out, &self.description);
        match &self.evidence {
            EvidenceEnum::Protocol(e) => {
                out.push(0u8);
                write_bytes(&mut out, &e.error_bytes);
                write_opt_part(&mut out, &e.direct_message);
                write_opt_part(&mut out, &e.echo_broadcast);
                write_opt_part(&mut out, &e.normal_broadcast);
                write_pack(&mut out, &e.direct_messages);
                write_pack(&mut out, &e.echo_broadcasts);
                write_pack(&mut out, &e.normal_broadcasts);
                write_pack(&mut out, &e.combined_echos);
            },
            EvidenceEnum::InvalidDirectMessage(e) => {
                out.push(1u8);
                write_signed_part(&mut out, &e.direct_message);
            },
            EvidenceEnum::InvalidEchoBroadcast(e) => {
                out.push(2u8);
                write_signed_part(&mut out, &e.echo_broadcast);
            },
            EvidenceEnum::InvalidNormalBroadcast(e) => {
                out.push(3u8);
                write_signed_part(&mut out, &e.normal_broadcast);
            },
            EvidenceEnum::InvalidEchoPack(e) => {
                out.push(4u8);
                write_signed_part(&mut out, &e.echo_pack);
                write_u64(&mut out, e.invalid_echo_sender);
            },
            EvidenceEnum::MismatchedBroadcasts(e) => {
                out.push(5u8);
                write_signed_part(&mut out, &e.we_received);
                write_signed_part(&mut out, &e.echoed_to_us);
            },
        }
        proof {
            assert(out@ =~= enc_evidence(self@));
        }
        out
    }

    /// Deserializes an evidence; the result's mathematical content is
    /// exactly what the bytes describe.
    #[verifier::rlimit(100)]
    #[verifier::spinoff_prover]
    pub fn deserialize(bytes: &Vec<u8>) -> (r: Result<Self, DeserializationError>)
        ensures
            r matches Ok(e) ==> (match dec_evidence(bytes@, 0) {
                Some((v, _)) => e@ == v,
                None => false,
            }),
            (match dec_evidence(bytes@, 0) {
                Some((v, _)) => evidence_dec_distinct(v) ==> r is Ok,
                None => r is Err,
            }),
    {
        let (guilty_party, p0) = match read_u64(bytes, 0) {
            Some(v) => v,
            None => {
                return Err(DeserializationError::new("the evidence bytes end early".to_owned()));
            },
        };
        let (description, p1) = match read_string(bytes, p0) {
            Some(v) => v,
            None => {
                return Err(
                    DeserializationError::new("the description cannot be decoded".to_owned()),
                );
            },
        };
        if p1 >= bytes.len() {
            return Err(DeserializationError::new("the evidence bytes end early".to_owned()));
        }
        let tag = bytes[p1];
        let p2 = p1 + 1;
        let evidence: EvidenceEnum = if tag == 0 {
            let (error_bytes, q1) = match read_bytes(bytes, p2) {
                Some(v) => v,
                None => {
                    return Err(DeserializationError::new("the error cannot be decoded".to_owned()));
                },
            };
            let (direct_message, q2) = match read_opt_part(bytes, q1) {
                Some(v) => v,
                None => {
                    return Err(DeserializationError::new("a part cannot be decoded".to_owned()));
                },
            };
            let (echo_broadcast, q3) = match read_opt_part(bytes, q2) {
                Some(v) => v,
                None => {
                    return Err(DeserializationError::new("a part cannot be decoded".to_owned()));
                },
            };
            let (normal_broadcast, q4) = match read_opt_part(bytes, q3) {
                Some(v) => v,
                None => {
                    return Err(DeserializationError::new("a part cannot be decoded".to_owned()));
                },
            };
            let (direct_messages, q5) = match read_pack(bytes, q4) {
                Some(v) => v,
                None => {
                    return Err(DeserializationError::new("a map cannot be decoded".to_owned()));
                },
            };
            let (echo_broadcasts, q6) = match read_pack(bytes, q5) {
                Some(v) => v,
                None => {
                    return Err(DeserializationError::new("a map cannot be decoded".to_owned()));
                },
            };
            let (normal_broadcasts, q7) = match read_pack(bytes, q6) {
                Some(v) => v,
                None => {
                    return Err(DeserializationError::new("a map cannot be decoded".to_owned()));
                },
            };
            let (combined_echos, _q8) = match read_pack(bytes, q7) {
                Some(v) => v,
                None => {
                    return Err(DeserializationError::new("a map cannot be decoded".to_owned()));
                },
            };
            EvidenceEnum::Protocol(
                ProtocolEvidence {
                    error_bytes,
                    direct_message,
                    echo_broadcast,
                    normal_broadcast,
                    direct_messages,
                    echo_broadcasts,
                    normal_broadcasts,
                    combined_echos,
                },
            )
        } else if tag == 1 {
            let (p, _q) = match read_signed_part(bytes, p2) {
                Some(v) => v,
                None => {
                    return Err(DeserializationError::new("a part cannot be decoded".to_owned()));
                },
            };
            EvidenceEnum::InvalidDirectMessage(InvalidDirectMessageEvidence { direct_message: p })
        } else if tag == 2 {
            let (p, _q) = match read_signed_part(bytes, p2) {
                Some(v) => v,
                None => {
                    return Err(DeserializationError::new("a part cannot be decoded".to_owned()));
                },
            };
            EvidenceEnum::InvalidEchoBroadcast(InvalidEchoBroadcastEvidence { echo_broadcast: p })
        } else if tag == 3 {
            let (p, _q) = match read_signed_part(bytes, p2) {
                Some(v) => v,
                None => {
                    return Err(DeserializationError::new("a part cannot be decoded".to_owned()));
                },
            };
            EvidenceEnum::InvalidNormalBroadcast(
                InvalidNormalBroadcastEvidence { normal_broadcast: p },
            )
        } else if tag == 4 {
            let (p, q1) = match read_signed_part(bytes, p2) {
                Some(v) => v,
                None => {
                    return Err(DeserializationError::new("a part cannot be decoded".to_owned()));
                },
            };
            let (invalid_echo_sender, _q2) = match read_u64(bytes, q1) {
                Some(v) => v,
                None => {
                    return Err(DeserializationError::new("the evidence bytes end early".to_owned()));
                },
            };
            EvidenceEnum::InvalidEchoPack(
                InvalidEchoPackEvidence { echo_pack: p, invalid_echo_sender },
            )
        } else if tag == 5 {
            let (we_received, q1) = match read_signed_part(bytes, p2) {
                Some(v) => v,
                None => {
                    return Err(DeserializationError::new("a part cannot be decoded".to_owned()));
                },
            };
            let (echoed_to_us, _q2) = match read_signed_part(bytes, q1) {
                Some(v) => v,
                None => {
                    return Err(DeserializationError::new("a part cannot be decoded".to_owned()));
                },
            };
            EvidenceEnum::MismatchedBroadcasts(
                MismatchedBroadcastsEvidence { we_received, echoed_to_us },
            )
        } else {
            return Err(DeserializationError::new("an unknown evidence kind".to_owned()));
        };
        Ok(Evidence { guilty_party, description, evidence })
    }
}

/// Validity of an evidence is a function of its mathematical content:
/// view-equal evidences are equally conclusive.
pub proof fn lemma_validity_is_content(a: Evidence, b: Evidence)
    requires
        a@ == b@,
    ensures
        evidence_valid(a) <==> evidence_valid(b),
{
}


/// The bounds under which an evidence's content can be length-prefixed:
/// true of every evidence built from real vectors.
pub open spec fn part_len_wf(p: SignedPartView) -> bool {
    match p.payload {
        Some(b) => b.len() < 0x1_0000_0000_0000_0000,
        None => true,
    }
}

/// Whether a decoded evidence's packs name each key at most once; always
/// true of an evidence the engine built, whose maps cannot repeat a key.
pub open spec fn evidence_dec_distinct(v: EvidenceView) -> bool {
    match v.evidence {
        EvidenceEnumView::Protocol(p) => distinct_keys(p.direct_messages) && distinct_keys(
            p.echo_broadcasts,
        ) && distinct_keys(p.normal_broadcasts) && distinct_keys(p.combined_echos),
        _ => true,
    }
}

/// The payload of the part is small enough to length-prefix; true of any
/// part holding a real vector.
pub proof fn lemma_part_len_wf(p: SignedMessagePart)
    ensures
        part_len_wf(p@),
{
    broadcast use vstd::std_specs::vec::axiom_spec_len;

    match p.payload {
        Some(v) => {
            assert(v.len() == v@.len());
        },
        None => {},
    }
}

/// The encoding bounds of an evidence view.
pub open spec fn evidence_view_wf(v: EvidenceView) -> bool {
    &&& (vstd::utf8::encode_utf8(v.description).len() < 0x1_0000_0000_0000_0000)
    &&& match v.evidence {
        EvidenceEnumView::Protocol(p) => {
            &&& (p.error_bytes.len() < 0x1_0000_0000_0000_0000)
            &&& (match p.direct_message {
                Some(q) => part_len_wf(q),
                None => true,
            })
            &&& (match p.echo_broadcast {
                Some(q) => part_len_wf(q),
                None => true,
            })
            &&& (match p.normal_broadcast {
                Some(q) => part_len_wf(q),
                None => true,
            })
            &&& pack_entries_wf(p.direct_messages) && (p.direct_messages.len()
                < 0x1_0000_0000_0000_0000)
            &&& pack_entries_wf(p.echo_broadcasts) && (p.echo_broadcasts.len()
                < 0x1_0000_0000_0000_0000)
            &&& pack_entries_wf(p.normal_broadcasts) && (p.normal_broadcasts.len()
                < 0x1_0000_0000_0000_0000)
            &&& pack_entries_wf(p.combined_echos) && (p.combined_echos.len()
                < 0x1_0000_0000_0000_0000)
        },
        EvidenceEnumView::InvalidDirectMessage(p) => part_len_wf(p),
        EvidenceEnumView::InvalidEchoBroadcast(p) => part_len_wf(p),
        EvidenceEnumView::InvalidNormalBroadcast(p) => part_len_wf(p),
        EvidenceEnumView::InvalidEchoPack { echo_pack, .. } => part_len_wf(echo_pack),
        EvidenceEnumView::MismatchedBroadcasts { we_received, echoed_to_us } => part_len_wf(
            we_received,
        ) && part_len_wf(echoed_to_us),
    }
}

/// Decoding an evidence undoes the encoding: the serialized form of an
/// evidence describes exactly that evidence.
pub proof fn lemma_evidence_round_trip(v: EvidenceView)
    requires
        evidence_view_wf(v),
    ensures
        dec_evidence(enc_evidence(v), 0) == Some((v, enc_evidence(v).len() as int)),
{
    broadcast use vstd::utf8::encode_utf8_valid_utf8;
    broadcast use vstd::utf8::encode_utf8_decode_utf8;

    let s = enc_evidence(v);
    let eg = enc_u64(v.guilty_party);
    let ed = enc_string(v.description);
    let utf = vstd::utf8::encode_utf8(v.description);
    let body = enc_evidence_body(v.evidence);
    assert(s == eg + ed + seq![evidence_tag(v.evidence)] + body);
    lemma_u64_round_trip(v.guilty_party);
    assert(s.subrange(0, 8) =~= eg);
    let p0: int = 8;
    assert(s.subrange(p0, p0 + ed.len()) =~= ed);
    lemma_string_round_trip(utf, s, p0);
    let p1 = p0 + ed.len();
    assert(s[p1] == evidence_tag(v.evidence));
    let p2 = p1 + 1;
    assert(s.subrange(p2, s.len() as int) =~= body);
    lemma_evidence_body_round_trip(v.evidence, s, p2);
}

/// The encoding of the variant's fields, after the tag.
pub open spec fn enc_evidence_body(v: EvidenceEnumView) -> Seq<u8> {
    match v {
        EvidenceEnumView::Protocol(p) => enc_bytes(p.error_bytes) + enc_opt_part(p.direct_message)
            + enc_opt_part(p.echo_broadcast) + enc_opt_part(p.normal_broadcast) + enc_pack(
            p.direct_messages,
        ) + enc_pack(p.echo_broadcasts) + enc_pack(p.normal_broadcasts) + enc_pack(
            p.combined_echos,
        ),
        EvidenceEnumView::InvalidDirectMessage(p) => enc_signed_part(p),
        EvidenceEnumView::InvalidEchoBroadcast(p) => enc_signed_part(p),
        EvidenceEnumView::InvalidNormalBroadcast(p) => enc_signed_part(p),
        EvidenceEnumView::InvalidEchoPack { echo_pack, invalid_echo_sender } => enc_signed_part(
            echo_pack,
        ) + enc_u64(invalid_echo_sender),
        EvidenceEnumView::MismatchedBroadcasts { we_received, echoed_to_us } => enc_signed_part(
            we_received,
        ) + enc_signed_part(echoed_to_us),
    }
}

#[verifier::rlimit(90)]
#[verifier::spinoff_prover]
proof fn lemma_evidence_body_round_trip(v: EvidenceEnumView, s: Seq<u8>, pos: int)
    requires
        0 <= pos,
        (match v {
            EvidenceEnumView::Protocol(p) => {
                &&& (p.error_bytes.len() < 0x1_0000_0000_0000_0000)
                &&& (match p.direct_message {
                    Some(q) => part_len_wf(q),
                    None => true,
                })
                &&& (match p.echo_broadcast {
                    Some(q) => part_len_wf(q),
                    None => true,
                })
                &&& (match p.normal_broadcast {
                    Some(q) => part_len_wf(q),
                    None => true,
                })
                &&& pack_entries_wf(p.direct_messages) && (p.direct_messages.len()
                    < 0x1_0000_0000_0000_0000)
                &&& pack_entries_wf(p.echo_broadcasts) && (p.echo_broadcasts.len()
                    < 0x1_0000_0000_0000_0000)
                &&& pack_entries_wf(p.normal_broadcasts) && (p.normal_broadcasts.len()
                    < 0x1_0000_0000_0000_0000)
                &&& pack_entries_wf(p.combined_echos) && (p.combined_echos.len()
                    < 0x1_0000_0000_0000_0000)
            },
            EvidenceEnumView::InvalidDirectMessage(p) => part_len_wf(p),
            EvidenceEnumView::InvalidEchoBroadcast(p) => part_len_wf(p),
            EvidenceEnumView::InvalidNormalBroadcast(p) => part_len_wf(p),
            EvidenceEnumView::InvalidEchoPack { echo_pack, .. } => part_len_wf(echo_pack),
            EvidenceEnumView::MismatchedBroadcasts { we_received, echoed_to_us } => part_len_wf(
                we_received,
            ) && part_len_wf(echoed_to_us),
        }),
        pos + enc_evidence_body(v).len() <= s.len(),
        s.subrange(pos, pos + enc_evidence_body(v).len()) == enc_evidence_body(v),
    ensures
        dec_evidence_enum(s, pos, evidence_tag(v)) == Some(
            (v, pos + enc_evidence_body(v).len()),
        ),
{
    let body = enc_evidence_body(v);
    match v {
        EvidenceEnumView::Protocol(p) => {
            lemma_protocol_body_round_trip(p, s, pos);
        },
        EvidenceEnumView::InvalidDirectMessage(p) => {
            lemma_signed_part_round_trip(s, pos, p);
        },
        EvidenceEnumView::InvalidEchoBroadcast(p) => {
            lemma_signed_part_round_trip(s, pos, p);
        },
        EvidenceEnumView::InvalidNormalBroadcast(p) => {
            lemma_signed_part_round_trip(s, pos, p);
        },
        EvidenceEnumView::InvalidEchoPack { echo_pack, invalid_echo_sender } => {
            let e1 = enc_signed_part(echo_pack);
            let e2 = enc_u64(invalid_echo_sender);
            let q1 = pos + e1.len();
            assert(body =~= e1 + e2);
            lemma_subrange_of_concat(s, pos, e1, e2);
            lemma_signed_part_round_trip(s, pos, echo_pack);
            lemma_u64_round_trip(invalid_echo_sender);
        },
        EvidenceEnumView::MismatchedBroadcasts { we_received, echoed_to_us } => {
            let e1 = enc_signed_part(we_received);
            let e2 = enc_signed_part(echoed_to_us);
            let q1 = pos + e1.len();
            assert(body =~= e1 + e2);
            lemma_subrange_of_concat(s, pos, e1, e2);
            lemma_signed_part_round_trip(s, pos, we_received);
            lemma_signed_part_round_trip(s, q1, echoed_to_us);
        },
    }
}

#[verifier::rlimit(100)]
#[verifier::spinoff_prover]
proof fn lemma_protocol_components(p: ProtocolEvidenceView, s: Seq<u8>, pos: int)
    requires
        0 <= pos,
        (p.error_bytes.len() < 0x1_0000_0000_0000_0000),
        (match p.direct_message {
            Some(q) => part_len_wf(q),
            None => true,
        }),
        (match p.echo_broadcast {
            Some(q) => part_len_wf(q),
            None => true,
        }),
        (match p.normal_broadcast {
            Some(q) => part_len_wf(q),
            None => true,
        }),
        pack_entries_wf(p.direct_messages),
        (p.direct_messages.len() < 0x1_0000_0000_0000_0000),
        pack_entries_wf(p.echo_broadcasts),
        (p.echo_broadcasts.len() < 0x1_0000_0000_0000_0000),
        pack_entries_wf(p.normal_broadcasts),
        (p.normal_broadcasts.len() < 0x1_0000_0000_0000_0000),
        pack_entries_wf(p.combined_echos),
        (p.combined_echos.len() < 0x1_0000_0000_0000_0000),
        pos + enc_evidence_body(EvidenceEnumView::Protocol(p)).len() <= s.len(),
        s.subrange(pos, pos + enc_evidence_body(EvidenceEnumView::Protocol(p)).len())
            == enc_evidence_body(EvidenceEnumView::Protocol(p)),
    ensures
        ({
            let q1 = pos + enc_bytes(p.error_bytes).len();
            let q2 = q1 + enc_opt_part(p.direct_message).len();
            let q3 = q2 + enc_opt_part(p.echo_broadcast).len();
            let q4 = q3 + enc_opt_part(p.normal_broadcast).len();
            let q5 = q4 + enc_pack(p.direct_messages).len();
            let q6 = q5 + enc_pack(p.echo_broadcasts).len();
            let q7 = q6 + enc_pack(p.normal_broadcasts).len();
            let q8 = q7 + enc_pack(p.combined_echos).len();
            &&& dec_bytes(s, pos) == Some((p.error_bytes, q1))
            &&& dec_opt_part(s, q1) == Some((p.direct_message, q2))
            &&& dec_opt_part(s, q2) == Some((p.echo_broadcast, q3))
            &&& dec_opt_part(s, q3) == Some((p.normal_broadcast, q4))
            &&& dec_pack(s, q4) == Some((p.direct_messages, q5))
            &&& dec_pack(s, q5) == Some((p.echo_broadcasts, q6))
            &&& dec_pack(s, q6) == Some((p.normal_broadcasts, q7))
            &&& dec_pack(s, q7) == Some((p.combined_echos, q8))
            &&& q8 == pos + enc_evidence_body(EvidenceEnumView::Protocol(p)).len()
        }),
{
    let e1 = enc_bytes(p.error_bytes);
    let e2 = enc_opt_part(p.direct_message);
    let e3 = enc_opt_part(p.echo_broadcast);
    let e4 = enc_opt_part(p.normal_broadcast);
    let e5 = enc_pack(p.direct_messages);
    let e6 = enc_pack(p.echo_broadcasts);
    let e7 = enc_pack(p.normal_broadcasts);
    let e8 = enc_pack(p.combined_echos);
    let x1 = e1;
    let x2 = x1 + e2;
    let x3 = x2 + e3;
    let x4 = x3 + e4;
    let x5 = x4 + e5;
    let x6 = x5 + e6;
    let x7 = x6 + e7;
    let x8 = x7 + e8;
    let q1 = pos + e1.len();
    let q2 = q1 + e2.len();
    let q3 = q2 + e3.len();
    let q4 = q3 + e4.len();
    let q5 = q4 + e5.len();
    let q6 = q5 + e6.len();
    let q7 = q6 + e7.len();
    let q8 = q7 + e8.len();
    assert(enc_evidence_body(EvidenceEnumView::Protocol(p)) == x8);
    lemma_subrange_of_concat(s, pos, x7, e8);
    lemma_subrange_of_concat(s, pos, x6, e7);
    lemma_subrange_of_concat(s, pos, x5, e6);
    lemma_subrange_of_concat(s, pos, x4, e5);
    lemma_subrange_of_concat(s, pos, x3, e4);
    lemma_subrange_of_concat(s, pos, x2, e3);
    lemma_subrange_of_concat(s, pos, x1, e2);
    assert(dec_bytes(s, pos) == Some((p.error_bytes, q1))) by {
        lemma_bytes_round_trip(s, pos, p.error_bytes);
    }
    assert(dec_opt_part(s, q1) == Some((p.direct_message, q2))) by {
        lemma_opt_part_round_trip(s, q1, p.direct_message);
    }
    assert(dec_opt_part(s, q2) == Some((p.echo_broadcast, q3))) by {
        lemma_opt_part_round_trip(s, q2, p.echo_broadcast);
    }
    assert(dec_opt_part(s, q3) == Some((p.normal_broadcast, q4))) by {
        lemma_opt_part_round_trip(s, q3, p.normal_broadcast);
    }
    assert(dec_pack(s, q4) == Some((p.direct_messages, q5))) by {
        lemma_pack_round_trip(s, q4, p.direct_messages);
    }
    assert(dec_pack(s, q5) == Some((p.echo_broadcasts, q6))) by {
        lemma_pack_round_trip(s, q5, p.echo_broadcasts);
    }
    assert(dec_pack(s, q6) == Some((p.normal_broadcasts, q7))) by {
        lemma_pack_round_trip(s, q6, p.normal_broadcasts);
    }
    assert(dec_pack(s, q7) == Some((p.combined_echos, q8))) by {
        lemma_pack_round_trip(s, q7, p.combined_echos);
    }
}

#[verifier::rlimit(100)]
#[verifier::spinoff_prover]
proof fn lemma_protocol_body_round_trip(p: ProtocolEvidenceView, s: Seq<u8>, pos: int)
    requires
        0 <= pos,
        (p.error_bytes.len() < 0x1_0000_0000_0000_0000),
        (match p.direct_message {
            Some(q) => part_len_wf(q),
            None => true,
        }),
        (match p.echo_broadcast {
            Some(q) => part_len_wf(q),
            None => true,
        }),
        (match p.normal_broadcast {
            Some(q) => part_len_wf(q),
            None => true,
        }),
        pack_entries_wf(p.direct_messages),
        (p.direct_messages.len() < 0x1_0000_0000_0000_0000),
        pack_entries_wf(p.echo_broadcasts),
        (p.echo_broadcasts.len() < 0x1_0000_0000_0000_0000),
        pack_entries_wf(p.normal_broadcasts),
        (p.normal_broadcasts.len() < 0x1_0000_0000_0000_0000),
        pack_entries_wf(p.combined_echos),
        (p.combined_echos.len() < 0x1_0000_0000_0000_0000),
        pos + enc_evidence_body(EvidenceEnumView::Protocol(p)).len() <= s.len(),
        s.subrange(pos, pos + enc_evidence_body(EvidenceEnumView::Protocol(p)).len())
            == enc_evidence_body(EvidenceEnumView::Protocol(p)),
    ensures
        dec_evidence_enum(s, pos, 0u8) == Some(
            (
                EvidenceEnumView::Protocol(p),
                pos + enc_evidence_body(EvidenceEnumView::Protocol(p)).len(),
            ),
        ),
{
    lemma_protocol_components(p, s, pos);
}

} // verus!
