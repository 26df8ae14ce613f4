//! The session engine: drives a single party through the round graph,
//! signing outgoing bundles, validating incoming ones, accumulating results,
//! inserting echo rounds, and emitting the final report.

use vstd::prelude::*;
use vstd::pervasive::cloned;
use crate::echo::{echo_error_valid, echo_pack_invalid, EchoRound};
use crate::errors::{LocalError, RemoteError};
use crate::evidence::{evidence_valid, Evidence};
use crate::message::{clone_opt_bytes, direct_part_meta, echo_part_meta, message_metadata_coherent, message_signed_by, normal_part_meta, opt_bytes_view, part_signed_by, DirectMessage, EchoBroadcast, Message, Metadata, NormalBroadcast, PartKind, ProtocolMessage, SessionId, SignedMessagePart, Signer, VerifiedMessage};
use crate::round::{check_declared_parts, EchoRoundError, FinalizeOutcome, ReceiveError, Round};
use crate::round_id::RoundId;
use crate::transcript::{SessionOutcome, SessionReport, Transcript};
use crate::utils::{IdMap, IdSet};

verus! {

/// The default quorum: every expected sender has responded.
pub open spec fn quorum(expected: Set<u64>, responded: Set<u64>) -> bool {
    expected.subset_of(responded)
}

/// What preprocessing guarantees of a message it hands on: all three parts
/// signed by the sender, coherent metadata for this node, and the given
/// session and round.
pub open spec fn vm_wf(m: VerifiedMessage, session_id: SessionId, me: u64, round_key: u64) -> bool {
    &&& message_signed_by(m@, m.from)
    &&& message_metadata_coherent(m@, me)
    &&& m@.direct_message.metadata.session_id == session_id
    &&& m@.direct_message.metadata.round_id.spec_key() == round_key
}

/// Every message cached in the bucket was preprocessed for this node, comes
/// from the bucket's sender, and is filed under its own round key.
pub open spec fn cached_bucket_wf(
    bucket: IdMap<VerifiedMessage>,
    f: u64,
    session_id: SessionId,
    me: u64,
) -> bool {
    forall|rk: u64| #[trigger] bucket@.dom().contains(rk) ==> bucket@[rk].from == f && vm_wf(
        bucket@[rk],
        session_id,
        me,
        rk,
    )
}

/// The payload the engine accumulates per sender: the round's own payload in
/// a regular round, or the bare confirmation of a consistent echo pack in an
/// echo round.
pub enum EnginePayload<R: Round> {
    /// What the round's receive handler produced.
    Main(R::Payload),
    /// The sender's echo pack was consistent.
    Echo,
}

/// Possible answers to whether the round can be finalized.
#[derive(Debug, Clone, Copy, PartialEq, Eq, Structural)]
pub enum CanFinalize {
    /// There are enough messages successfully processed to finalize the
    /// round.
    Yes,
    /// There are not enough successfully processed messages, but not all
    /// expected parties have responded yet.
    NotYet,
    /// Too many responses were invalid, and finalizing the round is
    /// impossible: every expected party has a final outcome, and the quorum
    /// is not met.
    Never,
}

/// The destination and retained artifact of one outgoing direct message.
pub struct ProcessedArtifact<R: Round> {
    /// Whom the direct message was sent to.
    pub destination: u64,
    /// The artifact retained for finalization, if the round keeps one.
    pub artifact: Option<R::Artifact>,
}

/// The result of processing one verified message: the message itself and
/// what the round made of it.
pub struct ProcessedMessage<R: Round> {
    /// The verified message that was processed.
    pub message: VerifiedMessage,
    /// The payload, or the rejection.
    pub processed: Result<EnginePayload<R>, ReceiveError>,
}

/// What process_message guarantees of its result, so that the accumulator
/// can turn rejections into evidence that verifies.
pub open spec fn processed_wf<R: Round>(
    pm: ProcessedMessage<R>,
    session_id: SessionId,
    me: u64,
    round_id: RoundId,
) -> bool {
    &&& vm_wf(pm.message, session_id, me, round_id.spec_key())
    &&& (pm.processed matches Err(ReceiveError::InvalidNormalBroadcast(_)) && round_id.is_echo
        ==> echo_pack_invalid(pm.message@.normal_broadcast.payload))
    &&& (pm.processed matches Ok(p) && p is Echo ==> round_id.is_echo)
    &&& (pm.processed matches Err(ReceiveError::Echo(err)) ==> round_id.is_echo
        && echo_error_valid(
        err,
        echo_part_meta(session_id, round_id.spec_non_echo()),
        (match pm.message@.normal_broadcast.payload {
            Some(b) => b,
            None => Seq::empty(),
        }),
    ))
}

/// The result of preprocessing an incoming message.
#[derive(Debug)]
pub enum PreprocessOutcome {
    /// The message was successfully verified; pass it on to
    /// `Session::process_message`.
    ToProcess(VerifiedMessage),
    /// The message was intended for a next round and was cached; it will be
    /// returned on a successful `Session::finalize_round`.
    Cached,
    /// There was an error verifying the message. It has been recorded in
    /// the accumulator; the attached value may be used for logging.
    Error(RemoteError),
}

impl PreprocessOutcome {
    /// The verified message for further processing, if any. The other
    /// outcomes are purely informative: all required actions have already
    /// been performed internally.
    pub fn ok(self) -> (r: Option<VerifiedMessage>)
        ensures
            match r {
                Some(m) => self matches PreprocessOutcome::ToProcess(m2) && m2 == m,
                None => !(self is ToProcess),
            },
    {
        match self {
            PreprocessOutcome::ToProcess(message) => Some(message),
            _ => None,
        }
    }
}

/// A mutable accumulator collecting the results and errors from processing
/// messages for a single round.
pub struct RoundAccumulator<R: Round> {
    /// The expected senders that have no final outcome (payload or error)
    /// yet.
    pub still_have_not_sent_messages: IdSet,
    /// The senders this round expects messages from.
    pub expecting_messages_from: IdSet,
    /// The senders whose message is being processed.
    pub processing: IdSet,
    /// The payload accumulated for each accepted sender.
    pub payloads: IdMap<EnginePayload<R>>,
    /// The artifact retained for each destination.
    pub artifacts: IdMap<R::Artifact>,
    /// Verified messages for possible next rounds: sender, then round key.
    pub cached: IdMap<IdMap<VerifiedMessage>>,
    /// The accepted echo-broadcast parts, by sender.
    pub echo_broadcasts: IdMap<SignedMessagePart>,
    /// The accepted normal-broadcast parts, by sender.
    pub normal_broadcasts: IdMap<SignedMessagePart>,
    /// The accepted direct-message parts, by sender.
    pub direct_messages: IdMap<SignedMessagePart>,
    /// The evidence registered this round, by guilty party.
    pub provable_errors: IdMap<Evidence>,
    /// The unattributable errors registered this round, by party.
    pub unprovable_errors: IdMap<RemoteError>,
}

impl<R: Round> RoundAccumulator<R> {
    /// The accumulator's well-formedness, relative to the session it serves:
    /// outcomes are recorded for expected senders only and at most once, the
    /// stored parts were signature-checked, every stored evidence carries
    /// the construction guarantee, and cached messages were preprocessed.
    pub open spec fn wf(self, session_id: SessionId, me: u64, round_id: RoundId) -> bool {
        &&& self.still_have_not_sent_messages@.subset_of(self.expecting_messages_from@)
        &&& self.payloads@.dom().disjoint(self.still_have_not_sent_messages@)
        &&& self.payloads@.dom().subset_of(self.expecting_messages_from@)
        &&& self.echo_broadcasts@.dom().subset_of(self.payloads@.dom())
        &&& self.normal_broadcasts@.dom().subset_of(self.payloads@.dom())
        &&& self.direct_messages@.dom().subset_of(self.payloads@.dom())
        &&& (forall|k: u64| #[trigger] self.provable_errors@.dom().contains(k) ==> evidence_valid(
            self.provable_errors@[k],
        ))
        &&& (forall|k: u64| #[trigger] self.echo_broadcasts@.dom().contains(k) ==> part_signed_by(
            self.echo_broadcasts@[k]@,
            k,
        ) && self.echo_broadcasts@[k]@.metadata == echo_part_meta(session_id, round_id))
        &&& (forall|k: u64| #[trigger] self.normal_broadcasts@.dom().contains(k)
            ==> part_signed_by(self.normal_broadcasts@[k]@, k)
            && self.normal_broadcasts@[k]@.metadata == normal_part_meta(session_id, round_id))
        &&& (forall|k: u64| #[trigger] self.direct_messages@.dom().contains(k) ==> part_signed_by(
            self.direct_messages@[k]@,
            k,
        ) && self.direct_messages@[k]@.metadata == direct_part_meta(session_id, round_id, me))
        &&& (forall|f: u64| #[trigger] self.cached@.dom().contains(f) ==> cached_bucket_wf(
            self.cached@[f],
            f,
            session_id,
            me,
        ))
    }

    /// Whether the party is banned in this round: any error is recorded
    /// against it.
    pub open spec fn is_banned_spec(&self, from: u64) -> bool {
        self.provable_errors@.dom().contains(from) || self.unprovable_errors@.dom().contains(from)
    }

    /// A fresh accumulator for a round expecting the given senders.
    pub fn new(expecting_messages_from: &IdSet) -> (r: Self)
        ensures
            r.still_have_not_sent_messages@ == expecting_messages_from@,
            r.expecting_messages_from@ == expecting_messages_from@,
            r.processing@ == Set::<u64>::empty(),
            r.payloads@ == Map::<u64, EnginePayload<R>>::empty(),
            r.artifacts@ == Map::<u64, R::Artifact>::empty(),
            r.cached@ == Map::<u64, IdMap<VerifiedMessage>>::empty(),
            r.echo_broadcasts@ == Map::<u64, SignedMessagePart>::empty(),
            r.normal_broadcasts@ == Map::<u64, SignedMessagePart>::empty(),
            r.direct_messages@ == Map::<u64, SignedMessagePart>::empty(),
            r.provable_errors@ == Map::<u64, Evidence>::empty(),
            r.unprovable_errors@ == Map::<u64, RemoteError>::empty(),
            forall|session_id: SessionId, me: u64, round_id: RoundId| r.wf(
                session_id,
                me,
                round_id,
            ),
    {
        let r = RoundAccumulator {
            still_have_not_sent_messages: expecting_messages_from.clone(),
            expecting_messages_from: expecting_messages_from.clone(),
            processing: IdSet::new(),
            payloads: IdMap::new(),
            artifacts: IdMap::new(),
            cached: IdMap::new(),
            echo_broadcasts: IdMap::new(),
            normal_broadcasts: IdMap::new(),
            direct_messages: IdMap::new(),
            provable_errors: IdMap::new(),
            unprovable_errors: IdMap::new(),
        };
        proof {
            assert(r.payloads@.dom() =~= Set::<u64>::empty());
        }
        r
    }

    /// Whether the round can be finalized: yes exactly when the quorum holds
    /// over the accepted payloads; never exactly when it does not and every
    /// expected sender already has a final outcome.
    pub fn can_finalize(&self) -> (r: CanFinalize)
        ensures
            (r == CanFinalize::Yes <==> quorum(self.expecting_messages_from@, self.payloads@.dom())),
            (r == CanFinalize::Never <==> !quorum(self.expecting_messages_from@, self.payloads@.dom())
                && self.still_have_not_sent_messages@.is_empty()),
            (r == CanFinalize::NotYet <==> !quorum(self.expecting_messages_from@, self.payloads@.dom())
                && !self.still_have_not_sent_messages@.is_empty()),
    {
        self.expecting_messages_from.elems_facts();
        let n = self.expecting_messages_from.len();
        let mut i: usize = 0;
        let mut all_in: bool = true;
        while i < n
            invariant
                i <= n,
                n == self.expecting_messages_from.elems().len(),
                all_in <==> (forall|j: int| 0 <= j < i ==> self.payloads@.dom().contains(
                    #[trigger] self.expecting_messages_from.elems()[j],
                )),
            decreases n - i,
        {
            let sender = self.expecting_messages_from.at(i);
            if !self.payloads.contains_key(sender) {
                all_in = false;
            }
            i += 1;
        }
        proof {
            if all_in {
                assert forall|x: u64| self.expecting_messages_from@.contains(x)
                    implies self.payloads@.dom().contains(x) by {
                    assert(crate::utils::has_id(self.expecting_messages_from.elems(), x));
                    let j = choose|j: int| 0 <= j < self.expecting_messages_from.elems().len()
                        && self.expecting_messages_from.elems()[j] == x;
                    assert(self.payloads@.dom().contains(
                        self.expecting_messages_from.elems()[j],
                    ));
                }
            } else {
                let j = choose|j: int| 0 <= j < n && !self.payloads@.dom().contains(
                    #[trigger] self.expecting_messages_from.elems()[j],
                );
                assert(self.expecting_messages_from@.contains(
                    self.expecting_messages_from.elems()[j],
                ));
            }
        }
        if all_in {
            CanFinalize::Yes
        } else if !self.still_have_not_sent_messages.is_empty() {
            CanFinalize::NotYet
        } else {
            CanFinalize::Never
        }
    }

    /// Whether any error is recorded against the party in this round.
    pub fn is_banned(&self, from: u64) -> (r: bool)
        ensures
            r == self.is_banned_spec(from),
    {
        self.provable_errors.contains_key(from) || self.unprovable_errors.contains_key(from)
    }

    /// Whether the party's message for this round is being processed.
    pub fn message_is_being_processed(&self, from: u64) -> (r: bool)
        ensures
            r == self.processing@.contains(from),
    {
        self.processing.contains(from)
    }

    /// Whether a message from the party is cached for the given round.
    pub fn message_is_cached(&self, from: u64, round_id: RoundId) -> (r: bool)
        ensures
            r == (self.cached@.dom().contains(from) && self.cached@[from]@.dom().contains(
                round_id.spec_key(),
            )),
    {
        match self.cached.get(from) {
            Some(bucket) => bucket.contains_key(round_id.key()),
            None => false,
        }
    }

    /// Records an unattributable error against the party, banning it for
    /// the rest of the session; a second error for the same party is a bug.
    pub fn register_unprovable_error(&mut self, from: u64, error: RemoteError) -> (r: Result<
        (),
        LocalError,
    >)
        ensures
            r matches Ok(()) ==> !old(self).unprovable_errors@.dom().contains(from) && *final(self)
                == (RoundAccumulator {
                unprovable_errors: final(self).unprovable_errors,
                ..*old(self)
            }) && final(self).unprovable_errors@ == old(self).unprovable_errors@.insert(
                from,
                error,
            ),
            r is Err ==> *final(self) == *old(self) && old(self).unprovable_errors@.dom().contains(
                from,
            ),
    {
        if self.unprovable_errors.contains_key(from) {
            return Err(
                LocalError::new("an unprovable error is already registered".to_owned()),
            );
        }
        self.unprovable_errors.insert(from, error);
        Ok(())
    }

    /// Records evidence against the party, banning it for the rest of the
    /// session; a second error for the same party is a bug.
    pub fn register_provable_error(&mut self, from: u64, evidence: Evidence) -> (r: Result<
        (),
        LocalError,
    >)
        requires
            evidence_valid(evidence),
        ensures
            r matches Ok(()) ==> !old(self).provable_errors@.dom().contains(from) && *final(self)
                == (RoundAccumulator {
                provable_errors: final(self).provable_errors,
                ..*old(self)
            }) && final(self).provable_errors@ == old(self).provable_errors@.insert(
                from,
                evidence,
            ),
            r is Err ==> *final(self) == *old(self) && old(self).provable_errors@.dom().contains(
                from,
            ),
    {
        if self.provable_errors.contains_key(from) {
            return Err(LocalError::new("a provable error is already registered".to_owned()));
        }
        self.provable_errors.insert(from, evidence);
        Ok(())
    }

    /// Marks the party's message as being processed; a duplicate is a bug.
    pub fn mark_processing(&mut self, from: u64) -> (r: Result<(), LocalError>)
        ensures
            r matches Ok(()) ==> !old(self).processing@.contains(from) && *final(self)
                == (RoundAccumulator { processing: final(self).processing, ..*old(self) })
                && final(self).processing@ == old(self).processing@.insert(from),
            r is Err ==> *final(self) == *old(self) && old(self).processing@.contains(from),
    {
        if self.processing.contains(from) {
            return Err(
                LocalError::new("a message is already marked as being processed".to_owned()),
            );
        }
        self.processing.insert(from);
        Ok(())
    }

    /// Adds the artifact retained when a direct message was created; a
    /// duplicate destination is a bug.
    pub fn add_artifact(&mut self, processed: ProcessedArtifact<R>) -> (r: Result<(), LocalError>)
        ensures
            r is Ok <==> (processed.artifact is None || !old(self).artifacts@.dom().contains(
                processed.destination,
            )),
            r matches Ok(()) ==> *final(self) == (RoundAccumulator {
                artifacts: final(self).artifacts,
                ..*old(self)
            }) && (match processed.artifact {
                Some(a) => !old(self).artifacts@.dom().contains(processed.destination) && final(self).artifacts@ == old(self).artifacts@.insert(processed.destination, a),
                None => final(self).artifacts@ == old(self).artifacts@,
            }),
            r is Err ==> *final(self) == *old(self),
    {
        let artifact = match processed.artifact {
            Some(artifact) => artifact,
            None => {
                return Ok(());
            },
        };
        if self.artifacts.contains_key(processed.destination) {
            return Err(
                LocalError::new("an artifact for this destination is already recorded".to_owned()),
            );
        }
        self.artifacts.insert(processed.destination, artifact);
        Ok(())
    }

    /// Caches a verified message intended for a next round; a second
    /// message from the same party for the same round is a bug.
    pub fn cache_message(&mut self, message: VerifiedMessage) -> (r: Result<(), LocalError>)
        ensures
            *final(self) == (RoundAccumulator { cached: final(self).cached, ..*old(self) }),
            r is Ok <==> !(old(self).cached@.dom().contains(message.from)
                && old(self).cached@[message.from]@.dom().contains(
                message@.direct_message.metadata.round_id.spec_key(),
            )),
            r matches Ok(()) ==> {
                let from = message.from;
                let rk = message@.direct_message.metadata.round_id.spec_key();
                let old_bucket = if old(self).cached@.dom().contains(from) {
                    old(self).cached@[from]@
                } else {
                    Map::<u64, VerifiedMessage>::empty()
                };
                &&& !old_bucket.dom().contains(rk)
                &&& final(self).cached@.dom() == old(self).cached@.dom().insert(from)
                &&& final(self).cached@[from]@ == old_bucket.insert(rk, message)
                &&& forall|f: u64| f != from && #[trigger] old(self).cached@.dom().contains(f)
                    ==> final(self).cached@[f] == old(self).cached@[f]
            },
            r is Err ==> final(self).cached@ == old(self).cached@,
    {
        let ghost old_cached = self.cached@;
        let from = message.from();
        let rk = message.round_id().key();
        let mut bucket = match self.cached.remove(from) {
            Some(b) => b,
            None => IdMap::new(),
        };
        if bucket.contains_key(rk) {
            self.cached.insert(from, bucket);
            proof {
                assert(self.cached@ =~= old_cached);
            }
            return Err(
                LocalError::new("a message for this round is already cached".to_owned()),
            );
        }
        bucket.insert(rk, message);
        self.cached.insert(from, bucket);
        proof {
            assert(self.cached@.dom() =~= old_cached.dom().insert(from));
        }
        Ok(())
    }
}


/// The party an echo-round error is attributed to: the pack's sender for an
/// invalid pack entry, the signer of the two broadcasts for a mismatch.
pub open spec fn echo_guilty(err: EchoRoundError, from: u64) -> u64 {
    match err {
        EchoRoundError::InvalidEcho(_) => from,
        EchoRoundError::MismatchedBroadcasts { guilty_party, .. } => guilty_party,
    }
}

impl<R: Round> RoundAccumulator<R> {
    /// Commits the result of processing one verified message: an accepted
    /// payload is recorded together with the signed parts that carried it; a
    /// rejection bans a party, building evidence where the fault is
    /// attributable. Either way the sender leaves the still-unsent set, so a
    /// sender has exactly one final outcome per round.
    /// Records an accepted payload together with the signed parts that
    /// carried it.
    fn commit_payload(
        &mut self,
        from: u64,
        payload: EnginePayload<R>,
        direct_message: SignedMessagePart,
        echo_broadcast: SignedMessagePart,
        normal_broadcast: SignedMessagePart,
        Ghost(session_id): Ghost<SessionId>,
        Ghost(me): Ghost<u64>,
        Ghost(round_id): Ghost<RoundId>,
    )
        requires
            old(self).wf(session_id, me, round_id),
            !old(self).payloads@.dom().contains(from),
            !old(self).still_have_not_sent_messages@.contains(from),
            old(self).expecting_messages_from@.contains(from),
            part_signed_by(echo_broadcast@, from),
            echo_broadcast@.metadata == echo_part_meta(session_id, round_id),
            part_signed_by(normal_broadcast@, from),
            normal_broadcast@.metadata == normal_part_meta(session_id, round_id),
            part_signed_by(direct_message@, from),
            direct_message@.metadata == direct_part_meta(session_id, round_id, me),
        ensures
            final(self).wf(session_id, me, round_id),
            final(self).expecting_messages_from@ == old(self).expecting_messages_from@,
            final(self).still_have_not_sent_messages@
                == old(self).still_have_not_sent_messages@,
            final(self).processing@ == old(self).processing@,
            final(self).cached@ == old(self).cached@,
            final(self).artifacts@ == old(self).artifacts@,
            final(self).payloads@ == old(self).payloads@.insert(from, payload),
            final(self).provable_errors@ == old(self).provable_errors@,
            final(self).unprovable_errors@ == old(self).unprovable_errors@,
            final(self).echo_broadcasts@ == (if echo_broadcast@.payload is Some {
                old(self).echo_broadcasts@.insert(from, echo_broadcast)
            } else {
                old(self).echo_broadcasts@
            }),
            final(self).normal_broadcasts@ == (if normal_broadcast@.payload is Some {
                old(self).normal_broadcasts@.insert(from, normal_broadcast)
            } else {
                old(self).normal_broadcasts@
            }),
            final(self).direct_messages@ == (if direct_message@.payload is Some {
                old(self).direct_messages@.insert(from, direct_message)
            } else {
                old(self).direct_messages@
            }),
    {
        let ghost old_self = *self;
        if !echo_broadcast.is_none() {
            self.echo_broadcasts.insert(from, echo_broadcast);
        }
        if !normal_broadcast.is_none() {
            self.normal_broadcasts.insert(from, normal_broadcast);
        }
        if !direct_message.is_none() {
            self.direct_messages.insert(from, direct_message);
        }
        self.payloads.insert(from, payload);
        proof {
            assert forall|k: u64| #[trigger] self.echo_broadcasts@.dom().contains(k)
                implies part_signed_by(self.echo_broadcasts@[k]@, k)
                && self.echo_broadcasts@[k]@.metadata == echo_part_meta(session_id, round_id) by {
                if k != from {
                    assert(old_self.echo_broadcasts@.dom().contains(k));
                }
            }
            assert forall|k: u64| #[trigger] self.normal_broadcasts@.dom().contains(k)
                implies part_signed_by(self.normal_broadcasts@[k]@, k)
                && self.normal_broadcasts@[k]@.metadata == normal_part_meta(
                session_id,
                round_id,
            ) by {
                if k != from {
                    assert(old_self.normal_broadcasts@.dom().contains(k));
                }
            }
            assert forall|k: u64| #[trigger] self.direct_messages@.dom().contains(k)
                implies part_signed_by(self.direct_messages@[k]@, k)
                && self.direct_messages@[k]@.metadata == direct_part_meta(
                session_id,
                round_id,
                me,
            ) by {
                if k != from {
                    assert(old_self.direct_messages@.dom().contains(k));
                }
            }
        }
    }

    /// Turns a rejection into the ban it calls for, building evidence where
    /// the fault is attributable.
    fn commit_error(
        &mut self,
        transcript: &Transcript,
        from: u64,
        error: ReceiveError,
        direct_message: SignedMessagePart,
        echo_broadcast: SignedMessagePart,
        normal_broadcast: SignedMessagePart,
        Ghost(session_id): Ghost<SessionId>,
        Ghost(me): Ghost<u64>,
        Ghost(round_id): Ghost<RoundId>,
    ) -> (r: Result<(), LocalError>)
        requires
            old(self).wf(session_id, me, round_id),
            transcript.parts_wf(session_id, me),
            part_signed_by(direct_message@, from),
            part_signed_by(echo_broadcast@, from),
            part_signed_by(normal_broadcast@, from),
            normal_broadcast@.metadata == normal_part_meta(session_id, round_id),
            (error matches ReceiveError::InvalidNormalBroadcast(_) && round_id.is_echo
                ==> echo_pack_invalid(normal_broadcast@.payload)),
            (error matches ReceiveError::Echo(err) ==> round_id.is_echo && echo_error_valid(
                err,
                echo_part_meta(session_id, round_id.spec_non_echo()),
                (match normal_broadcast@.payload {
                    Some(b) => b,
                    None => Seq::empty(),
                }),
            )),
        ensures
            final(self).wf(session_id, me, round_id),
            final(self).expecting_messages_from@ == old(self).expecting_messages_from@,
            final(self).still_have_not_sent_messages@
                == old(self).still_have_not_sent_messages@,
            final(self).processing@ == old(self).processing@,
            final(self).cached@ == old(self).cached@,
            final(self).artifacts@ == old(self).artifacts@,
            final(self).payloads@ == old(self).payloads@,
            final(self).echo_broadcasts@ == old(self).echo_broadcasts@,
            final(self).normal_broadcasts@ == old(self).normal_broadcasts@,
            final(self).direct_messages@ == old(self).direct_messages@,
            r is Err ==> final(self).provable_errors@ == old(self).provable_errors@ && final(self).unprovable_errors@ == old(self).unprovable_errors@,
            r is Ok <==> (match error {
                ReceiveError::Local(_) => false,
                ReceiveError::Unprovable(_) => !old(self).unprovable_errors@.dom().contains(from),
                ReceiveError::Protocol(p) => !old(self).provable_errors@.dom().contains(from)
                    && crate::evidence::kept_this_round_nonempty(
                    p.required_messages.this_round,
                    Some(direct_message),
                    Some(echo_broadcast),
                    Some(normal_broadcast),
                ) && crate::evidence::previous_rounds_available(
                    *transcript,
                    from,
                    p.required_messages.previous_rounds,
                ) && crate::evidence::combined_echos_available(
                    *transcript,
                    from,
                    p.required_messages.combined_echos,
                ),
                ReceiveError::Echo(e) => !old(self).provable_errors@.dom().contains(
                    echo_guilty(e, from),
                ),
                _ => !old(self).provable_errors@.dom().contains(from),
            }),
            r matches Ok(()) ==> match error {
                ReceiveError::Unprovable(re) => final(self).provable_errors@ == old(
                    self,
                ).provable_errors@ && final(self).unprovable_errors@ == old(
                    self,
                ).unprovable_errors@.insert(from, re),
                ReceiveError::Local(_) => false,
                _ => ({
                    let g = match error {
                        ReceiveError::Echo(err2) => echo_guilty(err2, from),
                        _ => from,
                    };
                    &&& final(self).provable_errors@.dom() == old(
                        self,
                    ).provable_errors@.dom().insert(g)
                    &&& final(self).unprovable_errors@ == old(self).unprovable_errors@
                    &&& final(self).is_banned_spec(g)
                }),
            },
    {
        match error {
            ReceiveError::InvalidDirectMessage(description) => {
                let evidence = Evidence::new_invalid_direct_message(
                    from,
                    direct_message,
                    description,
                );
                self.register_provable_error(from, evidence)
            },
            ReceiveError::InvalidEchoBroadcast(description) => {
                let evidence = Evidence::new_invalid_echo_broadcast(
                    from,
                    echo_broadcast,
                    description,
                );
                self.register_provable_error(from, evidence)
            },
            ReceiveError::InvalidNormalBroadcast(description) => {
                let evidence = Evidence::new_invalid_normal_broadcast(
                    from,
                    normal_broadcast,
                    description,
                );
                self.register_provable_error(from, evidence)
            },
            ReceiveError::Protocol(error) => {
                match Evidence::new_protocol_error(
                    from,
                    Some(echo_broadcast),
                    Some(normal_broadcast),
                    Some(direct_message),
                    error,
                    transcript,
                    Ghost(session_id),
                    Ghost(me),
                ) {
                    Ok(evidence) => self.register_provable_error(from, evidence),
                    Err(e) => Err(e),
                }
            },
            ReceiveError::Unprovable(error) => self.register_unprovable_error(from, error),
            ReceiveError::Echo(error) => {
                proof {
                    if normal_broadcast@.payload is None {
                        assert(crate::echo::dec_pack(Seq::empty(), 0) is None);
                    }
                }
                let evidence = Evidence::new_echo_round_error(
                    from,
                    normal_broadcast,
                    error,
                    "an inconsistency between the echoed broadcasts".to_owned(),
                );
                let g = evidence.guilty_party();
                self.register_provable_error(g, evidence)
            },
            ReceiveError::Local(error) => Err(error),
        }
    }

    /// Commits the result of processing one verified message: an accepted
    /// payload is recorded together with the signed parts that carried it; a
    /// rejection bans a party, building evidence where the fault is
    /// attributable. Either way the sender leaves the still-unsent set, so a
    /// sender has exactly one final outcome per round.
    #[verifier::rlimit(60)]
    pub fn add_processed_message(
        &mut self,
        transcript: &Transcript,
        processed: ProcessedMessage<R>,
        Ghost(session_id): Ghost<SessionId>,
        Ghost(me): Ghost<u64>,
        Ghost(round_id): Ghost<RoundId>,
    ) -> (r: Result<(), LocalError>)
        requires
            old(self).wf(session_id, me, round_id),
            transcript.parts_wf(session_id, me),
            processed_wf(processed, session_id, me, round_id),
        ensures
            final(self).wf(session_id, me, round_id),
            final(self).expecting_messages_from@ == old(self).expecting_messages_from@,
            final(self).processing@ == old(self).processing@,
            final(self).cached@ == old(self).cached@,
            final(self).artifacts@ == old(self).artifacts@,
            r is Ok <==> ({
                let from = processed.message.from;
                &&& !old(self).payloads@.dom().contains(from)
                &&& old(self).still_have_not_sent_messages@.contains(from)
                &&& (match processed.processed {
                    Ok(_) => true,
                    Err(e) => match e {
                        ReceiveError::Local(_) => false,
                        ReceiveError::Unprovable(_) => !old(self).unprovable_errors@.dom().contains(from),
                        ReceiveError::Protocol(p) => !old(self).provable_errors@.dom().contains(
                            from,
                        ) && crate::evidence::kept_this_round_nonempty(
                            p.required_messages.this_round,
                            Some(processed.message.direct_message),
                            Some(processed.message.echo_broadcast),
                            Some(processed.message.normal_broadcast),
                        ) && crate::evidence::previous_rounds_available(
                            *transcript,
                            from,
                            p.required_messages.previous_rounds,
                        ) && crate::evidence::combined_echos_available(
                            *transcript,
                            from,
                            p.required_messages.combined_echos,
                        ),
                        ReceiveError::Echo(e2) => !old(self).provable_errors@.dom().contains(
                            echo_guilty(e2, from),
                        ),
                        _ => !old(self).provable_errors@.dom().contains(from),
                    },
                })
            }),
            r is Err ==> ({
                let from = processed.message.from;
                &&& final(self).payloads@ == old(self).payloads@
                &&& final(self).provable_errors@ == old(self).provable_errors@
                &&& final(self).unprovable_errors@ == old(self).unprovable_errors@
                &&& final(self).echo_broadcasts@ == old(self).echo_broadcasts@
                &&& final(self).normal_broadcasts@ == old(self).normal_broadcasts@
                &&& final(self).direct_messages@ == old(self).direct_messages@
                &&& (final(self).still_have_not_sent_messages@ == old(self).still_have_not_sent_messages@ || final(self).still_have_not_sent_messages@ == old(self).still_have_not_sent_messages@.remove(from))
            }),
            r matches Ok(()) ==> ({
                let from = processed.message.from;
                &&& !old(self).payloads@.dom().contains(from)
                &&& old(self).still_have_not_sent_messages@.contains(from)
                &&& final(self).still_have_not_sent_messages@
                    == old(self).still_have_not_sent_messages@.remove(from)
                &&& match processed.processed {
                    Ok(p) => {
                        &&& final(self).payloads@ == old(self).payloads@.insert(from, p)
                        &&& final(self).provable_errors@ == old(self).provable_errors@
                        &&& final(self).unprovable_errors@ == old(self).unprovable_errors@
                        &&& final(self).echo_broadcasts@ == (
                        if processed.message.echo_broadcast@.payload is Some {
                            old(self).echo_broadcasts@.insert(
                                from,
                                processed.message.echo_broadcast,
                            )
                        } else {
                            old(self).echo_broadcasts@
                        })
                        &&& final(self).normal_broadcasts@ == (
                        if processed.message.normal_broadcast@.payload is Some {
                            old(self).normal_broadcasts@.insert(
                                from,
                                processed.message.normal_broadcast,
                            )
                        } else {
                            old(self).normal_broadcasts@
                        })
                        &&& final(self).direct_messages@ == (
                        if processed.message.direct_message@.payload is Some {
                            old(self).direct_messages@.insert(
                                from,
                                processed.message.direct_message,
                            )
                        } else {
                            old(self).direct_messages@
                        })
                    },
                    Err(ReceiveError::Unprovable(re)) => {
                        &&& final(self).payloads@ == old(self).payloads@
                        &&& final(self).provable_errors@ == old(self).provable_errors@
                        &&& final(self).unprovable_errors@
                            == old(self).unprovable_errors@.insert(from, re)
                    },
                    Err(ReceiveError::Local(_)) => false,
                    Err(e) => {
                        let g = match e {
                            ReceiveError::Echo(err2) => echo_guilty(err2, from),
                            _ => from,
                        };
                        &&& final(self).payloads@ == old(self).payloads@
                        &&& final(self).provable_errors@.dom()
                            == old(self).provable_errors@.dom().insert(g)
                        &&& final(self).unprovable_errors@ == old(self).unprovable_errors@
                        &&& final(self).is_banned_spec(g)
                    },
                }
            }),
    {
        let from = processed.message.from();
        if self.payloads.contains_key(from) {
            return Err(
                LocalError::new("a processed message from this party is already recorded".to_owned()),
            );
        }
        if !self.still_have_not_sent_messages.remove(from) {
            return Err(
                LocalError::new("the sender is not in the list of expected messages".to_owned()),
            );
        }
        let message = processed.message;
        let ghost mv = message@;
        proof {
            crate::round_id::lemma_round_key_injective(
                mv.direct_message.metadata.round_id,
                round_id,
            );
        }
        let VerifiedMessage { from: _, direct_message, echo_broadcast, normal_broadcast } =
            message;

        match processed.processed {
            Ok(payload) => {
                self.commit_payload(
                    from,
                    payload,
                    direct_message,
                    echo_broadcast,
                    normal_broadcast,
                    Ghost(session_id),
                    Ghost(me),
                    Ghost(round_id),
                );
                Ok(())
            },
            Err(error) => self.commit_error(
                transcript,
                from,
                error,
                direct_message,
                echo_broadcast,
                normal_broadcast,
                Ghost(session_id),
                Ghost(me),
                Ghost(round_id),
            ),
        }
    }
}


/// The messages cached for the given round, one per sender, in the order
/// the senders' caches were created: the engine's caller-observed insertion
/// order, since a sender gains a cache entry when its first early message
/// arrives.
pub open spec fn cached_for_round(
    entries: Seq<(u64, IdMap<VerifiedMessage>)>,
    rk: u64,
) -> Seq<VerifiedMessage>
    decreases entries.len(),
{
    if entries.len() == 0 {
        Seq::empty()
    } else {
        let rest = cached_for_round(entries.drop_first(), rk);
        if entries[0].1@.dom().contains(rk) {
            seq![entries[0].1@[rk]] + rest
        } else {
            rest
        }
    }
}

proof fn lemma_cached_for_round_push(
    entries: Seq<(u64, IdMap<VerifiedMessage>)>,
    e: (u64, IdMap<VerifiedMessage>),
    rk: u64,
)
    ensures
        cached_for_round(entries.push(e), rk) == cached_for_round(entries, rk) + (
        if e.1@.dom().contains(rk) {
            seq![e.1@[rk]]
        } else {
            Seq::<VerifiedMessage>::empty()
        }),
    decreases entries.len(),
{
    let pushed = entries.push(e);
    let tail = if e.1@.dom().contains(rk) {
        seq![e.1@[rk]]
    } else {
        Seq::<VerifiedMessage>::empty()
    };
    if entries.len() == 0 {
        assert(pushed[0] == e);
        assert(pushed.drop_first() =~= Seq::<(u64, IdMap<VerifiedMessage>)>::empty());
        assert(pushed.drop_first() == Seq::<(u64, IdMap<VerifiedMessage>)>::empty());
        assert(cached_for_round(pushed.drop_first(), rk) == Seq::<VerifiedMessage>::empty());
        assert(cached_for_round(entries, rk) == Seq::<VerifiedMessage>::empty());
        assert(cached_for_round(pushed, rk) == (if e.1@.dom().contains(rk) {
            seq![e.1@[rk]] + cached_for_round(pushed.drop_first(), rk)
        } else {
            cached_for_round(pushed.drop_first(), rk)
        }));
        assert(cached_for_round(pushed, rk) =~= cached_for_round(entries, rk) + tail);
    } else {
        assert(pushed[0] == entries[0]);
        assert(pushed.drop_first() =~= entries.drop_first().push(e));
        assert(pushed.drop_first() == entries.drop_first().push(e));
        lemma_cached_for_round_push(entries.drop_first(), e, rk);
        assert(cached_for_round(pushed.drop_first(), rk) == cached_for_round(
            entries.drop_first(),
            rk,
        ) + tail);
        assert(cached_for_round(pushed, rk) == (if entries[0].1@.dom().contains(rk) {
            seq![entries[0].1@[rk]] + cached_for_round(pushed.drop_first(), rk)
        } else {
            cached_for_round(pushed.drop_first(), rk)
        }));
        assert(cached_for_round(pushed, rk) =~= cached_for_round(entries, rk) + tail);
    }
}

/// Extracts, from a bucket map of cached messages, exactly the verified
/// messages filed for the given round, one per sender, in caller-observed
/// insertion order.
pub fn filter_messages(
    messages: IdMap<IdMap<VerifiedMessage>>,
    round_id: RoundId,
    Ghost(session_id): Ghost<SessionId>,
    Ghost(me): Ghost<u64>,
) -> (r: Vec<VerifiedMessage>)
    requires
        forall|f: u64| #[trigger] messages@.dom().contains(f) ==> cached_bucket_wf(
            messages@[f],
            f,
            session_id,
            me,
        ),
    ensures
        r@.len() == cached_for_round(messages.elems(), round_id.spec_key()).len(),
        forall|i: int| 0 <= i < r@.len() ==> (#[trigger] r@[i])@ == cached_for_round(
            messages.elems(),
            round_id.spec_key(),
        )[i]@ && r@[i].from == cached_for_round(messages.elems(), round_id.spec_key())[i].from,
        forall|i: int| 0 <= i < r@.len() ==> vm_wf(
            #[trigger] r@[i],
            session_id,
            me,
            round_id.spec_key(),
        ),
{
    let rk = round_id.key();
    messages.entries_facts();
    let ghost all = cached_for_round(messages.elems(), rk);
    let n = messages.len();
    let mut out: Vec<VerifiedMessage> = Vec::new();
    let mut i: usize = 0;
    while i < n
        invariant
            i <= n,
            n == messages.elems().len(),
            out@.len() == cached_for_round(messages.elems().take(i as int), rk).len(),
            forall|j: int| 0 <= j < out@.len() ==> (#[trigger] out@[j])@ == cached_for_round(
                messages.elems().take(i as int),
                rk,
            )[j]@ && out@[j].from == cached_for_round(messages.elems().take(i as int), rk)[j].from,
            forall|j: int| 0 <= j < out@.len() ==> vm_wf(#[trigger] out@[j], session_id, me, rk),
        decreases n - i,
    {
        let ghost prefix = messages.elems().take(i as int);
        let bucket = messages.value_at(i);
        proof {
            assert(messages@.contains_pair(messages.elems()[i as int].0, *bucket));
            assert(messages.elems().take(i + 1) =~= prefix.push(messages.elems()[i as int]));
            lemma_cached_for_round_push(prefix, messages.elems()[i as int], rk);
        }
        match bucket.get(rk) {
            Some(m) => {
                out.push(m.clone());
            },
            None => {},
        }
        i += 1;
    }
    proof {
        assert(messages.elems().take(n as int) =~= messages.elems());
    }
    out
}

/// Delivers the cached messages for one round: exactly those filed under
/// the round, in caller-observed insertion order, with messages from
/// senders banned in the transcript dropped.
#[verifier::rlimit(100)]
#[verifier::spinoff_prover]
fn deliver_cached(
    cached: IdMap<IdMap<VerifiedMessage>>,
    round_id: RoundId,
    transcript: &Transcript,
    Ghost(session_id): Ghost<SessionId>,
    Ghost(me): Ghost<u64>,
) -> (r: Vec<VerifiedMessage>)
    requires
        forall|f: u64| #[trigger] cached@.dom().contains(f) ==> cached_bucket_wf(
            cached@[f],
            f,
            session_id,
            me,
        ),
    ensures
        ({
            let expected = unbanned_filter(
                cached_for_round(cached.elems(), round_id.spec_key()),
                *transcript,
            );
            &&& r@.len() == expected.len()
            &&& (forall|i: int| 0 <= i < r@.len() ==> (#[trigger] r@[i])@ == expected[i]@
                && r@[i].from == expected[i].from)
        }),
        forall|i: int| 0 <= i < r@.len() ==> vm_wf(
            #[trigger] r@[i],
            session_id,
            me,
            round_id.spec_key(),
        ) && !transcript.is_banned_spec(r@[i].from),
{
    let ghost all = cached.elems();
    let filtered = filter_messages(cached, round_id, Ghost(session_id), Ghost(me));
    proof {
        lemma_unbanned_filter_congruence(
            filtered@,
            cached_for_round(all, round_id.spec_key()),
            *transcript,
        );
    }
    let ghost fv = filtered@;
    let delivered = keep_unbanned(filtered, transcript);
    proof {
        let expected = unbanned_filter(cached_for_round(all, round_id.spec_key()), *transcript);
        let got = unbanned_filter(fv, *transcript);
        assert(delivered@ == got);
        assert forall|i: int| 0 <= i < delivered@.len() implies vm_wf(
            #[trigger] delivered@[i],
            session_id,
            me,
            round_id.spec_key(),
        ) && !transcript.is_banned_spec(delivered@[i].from) by {
            lemma_unbanned_filter_membership(fv, *transcript, i);
            let j = choose|j: int|
                0 <= j < fv.len() && (#[trigger] fv[j]) == got[i] && !transcript.is_banned_spec(
                    fv[j].from,
                );
        }
    }
    delivered
}

/// Every filtered message is one of the input messages, with an unbanned
/// sender.
proof fn lemma_unbanned_filter_membership(s: Seq<VerifiedMessage>, t: Transcript, i: int)
    requires
        0 <= i < unbanned_filter(s, t).len(),
    ensures
        exists|j: int| 0 <= j < s.len() && (#[trigger] s[j]) == unbanned_filter(s, t)[i]
            && !t.is_banned_spec(s[j].from),
    decreases s.len(),
{
    let filtered = unbanned_filter(s, t);
    if s.len() == 0 {
    } else {
        let rest = unbanned_filter(s.drop_first(), t);
        if !t.is_banned_spec(s[0].from) {
            if i == 0 {
                assert(s[0] == filtered[0]);
            } else {
                lemma_unbanned_filter_membership(s.drop_first(), t, i - 1);
                let j = choose|j: int|
                    0 <= j < s.drop_first().len() && (#[trigger] s.drop_first()[j]) == rest[i - 1]
                        && !t.is_banned_spec(s.drop_first()[j].from);
                assert(s[j + 1] == filtered[i]);
            }
        } else {
            lemma_unbanned_filter_membership(s.drop_first(), t, i);
            let j = choose|j: int|
                0 <= j < s.drop_first().len() && (#[trigger] s.drop_first()[j]) == rest[i]
                    && !t.is_banned_spec(s.drop_first()[j].from);
            assert(s[j + 1] == filtered[i]);
        }
    }
}

/// The round a session is currently in: a protocol round, or the echo
/// sub-round the engine inserted after one.
pub enum RoundState<R: Round> {
    /// A protocol round.
    Active(R),
    /// The echo-consistency sub-round.
    Echo(EchoRound<R>),
}

/// An object encapsulating the currently active round and the record of the
/// previous rounds, driving one party through the protocol.
pub struct Session<R: Round> {
    /// The session identifier shared by all parties.
    pub session_id: SessionId,
    /// This party's signer.
    pub signer: Signer,
    /// This party's identity; the signer's verifying key.
    pub verifier_id: u64,
    /// The round being executed.
    pub state: RoundState<R>,
    /// The identifier of the round being executed.
    pub round_id: RoundId,
    /// This party's signed echo broadcast for the round; absent if the
    /// round echo-broadcasts nothing.
    pub echo_broadcast: SignedMessagePart,
    /// This party's signed normal broadcast for the round; shared by every
    /// outgoing bundle.
    pub normal_broadcast: SignedMessagePart,
    /// The parties this round sends messages to.
    pub message_destinations: IdSet,
    /// The parties this round expects messages from.
    pub expecting_messages_from: IdSet,
    /// The keys of the rounds an incoming message may legitimately name
    /// next; messages for them are cached.
    pub possible_next_rounds: IdSet,
    /// The record of the previous rounds.
    pub transcript: Transcript,
}

impl<R: Round> Session<R> {
    /// The engine's internal consistency: the stored parts are this party's,
    /// signed under this round's metadata; every stored evidence carries the
    /// construction guarantee; and when an echo round is scheduled it is the
    /// only possible next round.
    pub open spec fn wf(&self) -> bool {
        &&& self.verifier_id == self.signer.id
        &&& part_signed_by(self.echo_broadcast@, self.verifier_id)
        &&& self.echo_broadcast@.metadata == echo_part_meta(self.session_id, self.round_id)
        &&& part_signed_by(self.normal_broadcast@, self.verifier_id)
        &&& self.normal_broadcast@.metadata == normal_part_meta(self.session_id, self.round_id)
        &&& self.transcript.all_evidence_valid()
        &&& self.transcript.parts_wf(self.session_id, self.verifier_id)
        &&& match self.state {
            RoundState::Active(_) => !self.round_id.is_echo,
            RoundState::Echo(er) => {
                &&& self.round_id.is_echo
                &&& er.main_round_id == self.round_id.spec_non_echo()
                &&& er.session_id == self.session_id
                &&& er.verifier_id == self.verifier_id
                &&& er.echoes_wf()
                &&& self.echo_broadcast@.payload is None
            },
        }
        &&& (self.echo_broadcast@.payload is Some ==> !self.round_id.is_echo
            && self.possible_next_rounds@ == Set::<u64>::empty().insert(
            (RoundId { round_num: self.round_id.round_num, is_echo: true }).spec_key(),
        ))
    }

    /// Builds the session state for a round: asks the round for its
    /// broadcasts, signs them, and fixes the set of possible next rounds; an
    /// echo broadcast schedules the echo sub-round as the only next round.
    fn new_for_next_round(
        session_id: SessionId,
        signer: Signer,
        state: RoundState<R>,
        transcript: Transcript,
    ) -> (r: Result<Self, LocalError>)
        requires
            transcript.all_evidence_valid(),
            transcript.parts_wf(session_id, signer.id),
            (state matches RoundState::Echo(er) ==> er.session_id == session_id && er.verifier_id
                == signer.id && er.echoes_wf() && !er.main_round_id.is_echo),
        ensures
            (state matches RoundState::Echo(_) ==> r is Ok),
            r matches Ok(s) ==> {
                &&& s.wf()
                &&& s.session_id == session_id
                &&& s.signer == signer
                &&& s.verifier_id == signer.id
                &&& s.state == state
                &&& s.transcript == transcript
                &&& (state matches RoundState::Echo(er) ==> s.round_id == (RoundId {
                    round_num: er.main_round_id.round_num,
                    is_echo: true,
                }))
            },
    {
        let verifier_id = signer.verifying_key();
        let (round_id, destinations, expecting, next_rounds, echo_payload, normal_payload): (
            RoundId,
            IdSet,
            IdSet,
            IdSet,
            Option<Vec<u8>>,
            Option<Vec<u8>>,
        ) = match &state {
            RoundState::Active(round) => {
                let ti = round.transition_info();
                if ti.id.is_echo() {
                    return Err(
                        LocalError::new("a protocol round uses an echo round id".to_owned()),
                    );
                }
                let ci = round.communication_info();
                match &ci.echo_round_participation {
                    crate::round::EchoRoundParticipation::Regular => {},
                    _ => {
                        return Err(
                            LocalError::new(
                                "only the regular echo-round participation is supported".to_owned(),
                            ),
                        );
                    },
                }
                let echo = match round.make_echo_broadcast() {
                    Ok(o) => o,
                    Err(e) => {
                        return Err(e);
                    },
                };
                let normal = match round.make_normal_broadcast() {
                    Ok(o) => o,
                    Err(e) => {
                        return Err(e);
                    },
                };
                let echo_payload = match echo {
                    Some(eb) => eb.payload,
                    None => None,
                };
                let normal_payload = match normal {
                    Some(nb) => nb.payload,
                    None => None,
                };
                (
                    ti.id,
                    ci.message_destinations,
                    ci.expecting_messages_from,
                    ti.possible_next_rounds,
                    echo_payload,
                    normal_payload,
                )
            },
            RoundState::Echo(er) => {
                let rid = er.round_id();
                let pack = er.make_normal_broadcast();
                (
                    rid,
                    er.destinations.clone(),
                    er.expecting.clone(),
                    er.transition.possible_next_rounds.clone(),
                    None,
                    pack.payload,
                )
            },
        };
        let echo_broadcast = SignedMessagePart::sign(
            &signer,
            Metadata::new(session_id, round_id, PartKind::EchoBroadcast, None),
            echo_payload,
        );
        let normal_broadcast = SignedMessagePart::sign(
            &signer,
            Metadata::new(session_id, round_id, PartKind::NormalBroadcast, None),
            normal_payload,
        );
        let possible_next_rounds = if echo_broadcast.is_none() {
            next_rounds
        } else {
            let mut only_echo = IdSet::new();
            only_echo.insert(round_id.echo().key());
            only_echo
        };
        Ok(
            Session {
                session_id,
                signer,
                verifier_id,
                state,
                round_id,
                echo_broadcast,
                normal_broadcast,
                message_destinations: destinations,
                expecting_messages_from: expecting,
                possible_next_rounds,
                transcript,
            },
        )
    }

    /// Initializes a new session for the protocol's first round.
    pub fn new(session_id: SessionId, signer: Signer, first_round: R) -> (r: Result<
        Self,
        LocalError,
    >)
        ensures
            r matches Ok(s) ==> s.wf() && s.session_id == session_id && s.verifier_id == signer.id
                && (forall|p: u64| !s.transcript.is_banned_spec(p)),
    {
        Self::new_for_next_round(
            session_id,
            signer,
            RoundState::Active(first_round),
            Transcript::new(),
        )
    }

    /// This party's identity: the verifier_id corresponding to its signer.
    pub fn verifier_id(&self) -> (r: u64)
        ensures
            r == self.verifier_id,
    {
        self.verifier_id
    }

    /// The session identifier.
    pub fn session_id(&self) -> (r: &SessionId)
        ensures
            r == &self.session_id,
    {
        &self.session_id
    }

    /// The identifier of the current round.
    pub fn round_id(&self) -> (r: RoundId)
        ensures
            r == self.round_id,
    {
        self.round_id
    }

    /// The parties the current round sends messages to.
    pub fn message_destinations(&self) -> (r: &IdSet)
        ensures
            r == &self.message_destinations,
    {
        &self.message_destinations
    }

    /// Builds and signs the complete outgoing bundle for one destination.
    ///
    /// The echo-broadcast and normal-broadcast slots are this party's stored
    /// signed parts: bitwise identical, signature included, across all
    /// destinations of the round.
    pub fn make_message(&self, destination: u64) -> (r: Result<
        (Message, ProcessedArtifact<R>),
        LocalError,
    >)
        requires
            self.wf(),
        ensures
            (self.state matches RoundState::Echo(_) ==> r is Ok),
            r matches Ok(p) ==> {
                &&& message_signed_by(p.0@, self.verifier_id)
                &&& message_metadata_coherent(p.0@, destination)
                &&& p.0@.echo_broadcast == self.echo_broadcast@
                &&& p.0@.normal_broadcast == self.normal_broadcast@
                &&& p.0@.direct_message.metadata == direct_part_meta(
                    self.session_id,
                    self.round_id,
                    destination,
                )
                &&& p.1.destination == destination
            },
    {
        let (direct_payload, artifact): (Option<Vec<u8>>, Option<R::Artifact>) = match &self
            .state {
            RoundState::Active(round) => match round.make_direct_message(destination) {
                Ok(Some((dm, artifact))) => (dm.payload, Some(artifact)),
                Ok(None) => (None, None),
                Err(e) => {
                    return Err(e);
                },
            },
            RoundState::Echo(_) => (None, None),
        };
        let direct_message = SignedMessagePart::sign(
            &self.signer,
            Metadata::new(
                self.session_id,
                self.round_id,
                PartKind::DirectMessage,
                Some(destination),
            ),
            direct_payload,
        );
        let message = Message {
            direct_message,
            echo_broadcast: self.echo_broadcast.clone(),
            normal_broadcast: self.normal_broadcast.clone(),
        };
        let processed_artifact = ProcessedArtifact { destination, artifact };
        Ok((message, processed_artifact))
    }

    /// Adds the artifact from `make_message` to the accumulator.
    pub fn add_artifact(&self, accum: &mut RoundAccumulator<R>, processed: ProcessedArtifact<R>)
        -> (r: Result<(), LocalError>)
        requires
            self.wf(),
            old(accum).wf(self.session_id, self.verifier_id, self.round_id),
        ensures
            final(accum).wf(self.session_id, self.verifier_id, self.round_id),
            r matches Ok(()) ==> *final(accum) == (RoundAccumulator {
                artifacts: final(accum).artifacts,
                ..*old(accum)
            }),
    {
        accum.add_artifact(processed)
    }

    /// Makes an accumulator for the current round.
    pub fn make_accumulator(&self) -> (r: RoundAccumulator<R>)
        requires
            self.wf(),
        ensures
            r.wf(self.session_id, self.verifier_id, self.round_id),
            r.still_have_not_sent_messages@ == self.expecting_messages_from@,
            r.expecting_messages_from@ == self.expecting_messages_from@,
            r.processing@ == Set::<u64>::empty(),
            r.payloads@ == Map::<u64, EnginePayload<R>>::empty(),
            r.provable_errors@ == Map::<u64, Evidence>::empty(),
            r.unprovable_errors@ == Map::<u64, RemoteError>::empty(),
            r.cached@ == Map::<u64, IdMap<VerifiedMessage>>::empty(),
            forall|p: u64| !r.is_banned_spec(p),
    {
        RoundAccumulator::new(&self.expecting_messages_from)
    }

    /// Checks if the current round can be finalized.
    pub fn can_finalize(&self, accum: &RoundAccumulator<R>) -> (r: CanFinalize)
        ensures
            (r == CanFinalize::Yes <==> quorum(
                accum.expecting_messages_from@,
                accum.payloads@.dom(),
            )),
            (r == CanFinalize::Never <==> !quorum(
                accum.expecting_messages_from@,
                accum.payloads@.dom(),
            ) && accum.still_have_not_sent_messages@.is_empty()),
    {
        accum.can_finalize()
    }

    /// Processes a verified message through the current round's receive
    /// handler (or the engine's own echo cross-check); does not touch any
    /// state, so it may be dispatched to a worker.
    /// Hands the message to the current round's receive handler, or to the
    /// engine's own echo cross-check.
    #[verifier::rlimit(100)]
    #[verifier::spinoff_prover]
    fn receive_dispatch(&self, from: u64, normal_payload: &Option<Vec<u8>>, parts: ProtocolMessage)
        -> (r: Result<EnginePayload<R>, ReceiveError>)
        requires
            self.wf(),
        ensures
            (r matches Ok(p) && p is Echo ==> self.round_id.is_echo),
            (r matches Err(ReceiveError::InvalidNormalBroadcast(_)) && self.round_id.is_echo
                ==> echo_pack_invalid(opt_bytes_view(*normal_payload))),
            (r matches Err(ReceiveError::Echo(err)) ==> self.round_id.is_echo
                && echo_error_valid(
                err,
                echo_part_meta(self.session_id, self.round_id.spec_non_echo()),
                (match opt_bytes_view(*normal_payload) {
                    Some(b) => b,
                    None => Seq::empty(),
                }),
            )),
            (self.state matches RoundState::Active(_) ==> (r matches Ok(p) ==> p is Main)),
            (self.state matches RoundState::Echo(er) ==> (r matches Ok(p) ==> p is Echo && (
            match opt_bytes_view(*normal_payload) {
                Some(b) => match crate::echo::dec_pack(b, 0) {
                    Some((entries, _)) => crate::echo::pack_consistent(
                        entries,
                        er.echoes@,
                        er.verifier_id,
                        er.echo_broadcast@.payload,
                        er.echo_meta(),
                        from,
                    ),
                    None => false,
                },
                None => false,
            }))),
    {
        match &self.state {
            RoundState::Active(round) => {
                let declaration = round.parts_declaration();
                match check_declared_parts(&declaration, &parts) {
                    Err(e) => Err(e),
                    Ok(()) => match round.receive_message(from, parts) {
                        Ok(p) => Ok(EnginePayload::Main(p)),
                        Err(ReceiveError::Echo(_)) => Err(
                            ReceiveError::Local(
                                LocalError::new(
                                    "a protocol round raised an engine-internal error".to_owned(),
                                ),
                            ),
                        ),
                        Err(e) => Err(e),
                    },
                }
            },
            RoundState::Echo(er) => match er.receive_echo(from, normal_payload) {
                Ok(()) => Ok(EnginePayload::Echo),
                Err(e) => Err(e),
            },
        }
    }

    /// Processes a verified message through the current round's receive
    /// handler (or the engine's own echo cross-check); does not touch any
    /// state, so it may be dispatched to a worker.
    #[verifier::rlimit(100)]
    #[verifier::spinoff_prover]
    pub fn process_message(&self, message: VerifiedMessage) -> (r: ProcessedMessage<R>)
        requires
            self.wf(),
            vm_wf(message, self.session_id, self.verifier_id, self.round_id.spec_key()),
        ensures
            processed_wf(r, self.session_id, self.verifier_id, self.round_id),
            r.message == message,
            (self.state matches RoundState::Active(_) ==> (r.processed matches Ok(p) ==> p is Main)),
            (self.state matches RoundState::Echo(er) ==> (r.processed matches Ok(p) ==> p is Echo
                && (match message@.normal_broadcast.payload {
                Some(b) => match crate::echo::dec_pack(b, 0) {
                    Some((entries, _)) => crate::echo::pack_consistent(
                        entries,
                        er.echoes@,
                        er.verifier_id,
                        er.echo_broadcast@.payload,
                        er.echo_meta(),
                        message.from,
                    ),
                    None => false,
                },
                None => false,
            }))),
    {
        proof {
            crate::round_id::lemma_round_key_injective(
                message@.direct_message.metadata.round_id,
                self.round_id,
            );
        }
        let parts = ProtocolMessage {
            echo_broadcast: EchoBroadcast {
                payload: clone_opt_bytes(&message.echo_broadcast.payload),
            },
            normal_broadcast: NormalBroadcast {
                payload: clone_opt_bytes(&message.normal_broadcast.payload),
            },
            direct_message: DirectMessage {
                payload: clone_opt_bytes(&message.direct_message.payload),
            },
        };
        let from = message.from();
        let processed = self.receive_dispatch(from, &message.normal_broadcast.payload, parts);
        ProcessedMessage { message, processed }
    }

    /// Adds a result of `process_message` to the accumulator.
    pub fn add_processed_message(
        &self,
        accum: &mut RoundAccumulator<R>,
        processed: ProcessedMessage<R>,
    ) -> (r: Result<(), LocalError>)
        requires
            self.wf(),
            old(accum).wf(self.session_id, self.verifier_id, self.round_id),
            processed_wf(processed, self.session_id, self.verifier_id, self.round_id),
        ensures
            final(accum).wf(self.session_id, self.verifier_id, self.round_id),
            final(accum).expecting_messages_from@ == old(accum).expecting_messages_from@,
            final(accum).cached@ == old(accum).cached@,
            final(accum).artifacts@ == old(accum).artifacts@,
            r is Ok <==> ({
                let from = processed.message.from;
                &&& !old(accum).payloads@.dom().contains(from)
                &&& old(accum).still_have_not_sent_messages@.contains(from)
                &&& (match processed.processed {
                    Ok(_) => true,
                    Err(e) => match e {
                        ReceiveError::Local(_) => false,
                        ReceiveError::Unprovable(_) => !old(accum).unprovable_errors@.dom().contains(from),
                        ReceiveError::Protocol(p) => !old(accum).provable_errors@.dom().contains(
                            from,
                        ) && crate::evidence::kept_this_round_nonempty(
                            p.required_messages.this_round,
                            Some(processed.message.direct_message),
                            Some(processed.message.echo_broadcast),
                            Some(processed.message.normal_broadcast),
                        ) && crate::evidence::previous_rounds_available(
                            self.transcript,
                            from,
                            p.required_messages.previous_rounds,
                        ) && crate::evidence::combined_echos_available(
                            self.transcript,
                            from,
                            p.required_messages.combined_echos,
                        ),
                        ReceiveError::Echo(e2) => !old(accum).provable_errors@.dom().contains(
                            echo_guilty(e2, from),
                        ),
                        _ => !old(accum).provable_errors@.dom().contains(from),
                    },
                })
            }),
            r is Err ==> ({
                let from = processed.message.from;
                &&& final(accum).payloads@ == old(accum).payloads@
                &&& final(accum).provable_errors@ == old(accum).provable_errors@
                &&& final(accum).unprovable_errors@ == old(accum).unprovable_errors@
                &&& final(accum).echo_broadcasts@ == old(accum).echo_broadcasts@
                &&& final(accum).normal_broadcasts@ == old(accum).normal_broadcasts@
                &&& final(accum).direct_messages@ == old(accum).direct_messages@
                &&& (final(accum).still_have_not_sent_messages@ == old(accum).still_have_not_sent_messages@ || final(accum).still_have_not_sent_messages@ == old(accum).still_have_not_sent_messages@.remove(from))
            }),
            r matches Ok(()) ==> ({
                let from = processed.message.from;
                &&& !old(accum).payloads@.dom().contains(from)
                &&& final(accum).still_have_not_sent_messages@
                    == old(accum).still_have_not_sent_messages@.remove(from)
                &&& match processed.processed {
                    Ok(p) => final(accum).payloads@ == old(accum).payloads@.insert(from, p)
                        && final(accum).provable_errors@ == old(accum).provable_errors@
                        && final(accum).unprovable_errors@ == old(accum).unprovable_errors@
                        && final(accum).echo_broadcasts@ == (
                    if processed.message.echo_broadcast@.payload is Some {
                        old(accum).echo_broadcasts@.insert(from, processed.message.echo_broadcast)
                    } else {
                        old(accum).echo_broadcasts@
                    }) && final(accum).normal_broadcasts@ == (
                    if processed.message.normal_broadcast@.payload is Some {
                        old(accum).normal_broadcasts@.insert(
                            from,
                            processed.message.normal_broadcast,
                        )
                    } else {
                        old(accum).normal_broadcasts@
                    }) && final(accum).direct_messages@ == (
                    if processed.message.direct_message@.payload is Some {
                        old(accum).direct_messages@.insert(from, processed.message.direct_message)
                    } else {
                        old(accum).direct_messages@
                    }),
                    Err(ReceiveError::Unprovable(re)) => final(accum).payloads@ == old(accum).payloads@ && final(accum).unprovable_errors@ == old(accum).unprovable_errors@.insert(from, re),
                    Err(ReceiveError::Local(_)) => false,
                    Err(e) => ({
                        let g = match e {
                            ReceiveError::Echo(err2) => echo_guilty(err2, from),
                            _ => from,
                        };
                        final(accum).payloads@ == old(accum).payloads@ && final(accum).provable_errors@.dom() == old(accum).provable_errors@.dom().insert(g) && final(accum).is_banned_spec(g)
                    }),
                }
            }),
    {
        accum.add_processed_message(
            &self.transcript,
            processed,
            Ghost(self.session_id),
            Ghost(self.verifier_id),
            Ghost(self.round_id),
        )
    }
}



/// Possible non-erroneous results of finalizing a round.
pub enum RoundOutcome<R: Round> {
    /// The execution is finished.
    Finished(SessionReport<R::Output>),
    /// Transitioned to another round.
    AnotherRound {
        /// The session object for the new round.
        session: Session<R>,
        /// The messages intended for the new round cached during the
        /// previous round, already verified.
        cached_messages: Vec<VerifiedMessage>,
    },
}

impl<R: Round> Session<R> {
    /// Performs the preliminary checks on an incoming bundle: the sender is
    /// not banned, the metadata is coherent and names this session, the
    /// round is the current one (to process) or a possible next one (to
    /// cache), no duplicate exists, and all three signatures verify. Any
    /// failure except a ban registers an unattributable error against the
    /// sender, banning it.
    pub fn preprocess_message(
        &self,
        accum: &mut RoundAccumulator<R>,
        from: u64,
        message: Message,
    ) -> (r: Result<PreprocessOutcome, LocalError>)
        requires
            self.wf(),
            old(accum).wf(self.session_id, self.verifier_id, self.round_id),
        ensures
            r is Ok,
            final(accum).wf(self.session_id, self.verifier_id, self.round_id),
            final(accum).expecting_messages_from@ == old(accum).expecting_messages_from@,
            final(accum).still_have_not_sent_messages@ == old(
                accum,
            ).still_have_not_sent_messages@,
            final(accum).payloads@ == old(accum).payloads@,
            final(accum).provable_errors@ == old(accum).provable_errors@,
            final(accum).artifacts@ == old(accum).artifacts@,
            final(accum).echo_broadcasts@ == old(accum).echo_broadcasts@,
            final(accum).normal_broadcasts@ == old(accum).normal_broadcasts@,
            final(accum).direct_messages@ == old(accum).direct_messages@,
            (self.transcript.is_banned_spec(from) || old(accum).is_banned_spec(from))
                ==> *final(accum) == *old(accum),
            r matches Ok(PreprocessOutcome::ToProcess(vm)) ==> ({
                &&& vm_wf(vm, self.session_id, self.verifier_id, self.round_id.spec_key())
                &&& vm.from == from
                &&& vm@ == message@
                &&& !self.transcript.is_banned_spec(from)
                &&& !old(accum).is_banned_spec(from)
                &&& !old(accum).processing@.contains(from)
                &&& final(accum).processing@ == old(accum).processing@.insert(from)
                &&& final(accum).unprovable_errors@ == old(accum).unprovable_errors@
                &&& final(accum).cached@ == old(accum).cached@
            }),
            r matches Ok(PreprocessOutcome::Cached) ==> ({
                &&& self.possible_next_rounds@.contains(
                    message@.direct_message.metadata.round_id.spec_key(),
                )
                &&& !self.transcript.is_banned_spec(from)
                &&& !old(accum).is_banned_spec(from)
                &&& final(accum).processing@ == old(accum).processing@
                &&& final(accum).unprovable_errors@ == old(accum).unprovable_errors@
            }),
            r matches Ok(PreprocessOutcome::Error(_)) ==> ({
                &&& final(accum).processing@ == old(accum).processing@
                &&& final(accum).cached@ == old(accum).cached@
                &&& (final(accum).unprovable_errors@ == old(accum).unprovable_errors@
                    || final(accum).unprovable_errors@.dom() == old(
                    accum,
                ).unprovable_errors@.dom().insert(from))
                &&& ((self.transcript.is_banned_spec(from) || old(accum).is_banned_spec(from))
                    ==> final(accum).unprovable_errors@ == old(accum).unprovable_errors@)
            }),
            // A fresh, coherent, correctly signed message for the current
            // round is accepted for processing.
            (!self.transcript.is_banned_spec(from) && !old(accum).is_banned_spec(from)
                && message_metadata_coherent(message@, self.verifier_id)
                && message@.direct_message.metadata.session_id == self.session_id
                && message@.direct_message.metadata.round_id == self.round_id && !old(
                accum,
            ).processing@.contains(from) && message_signed_by(message@, from) ==> (
            r matches Ok(o) && o matches PreprocessOutcome::ToProcess(vm) && vm@ == message@
                && vm.from == from)),
            // A fresh, coherent, correctly signed message for a possible
            // next round is cached.
            (!self.transcript.is_banned_spec(from) && !old(accum).is_banned_spec(from)
                && message_metadata_coherent(message@, self.verifier_id)
                && message@.direct_message.metadata.session_id == self.session_id
                && message@.direct_message.metadata.round_id != self.round_id
                && self.possible_next_rounds@.contains(
                message@.direct_message.metadata.round_id.spec_key(),
            ) && !(old(accum).cached@.dom().contains(from) && old(accum).cached@[from]@.dom().contains(
                message@.direct_message.metadata.round_id.spec_key(),
            )) && message_signed_by(message@, from) ==> (r matches Ok(o)
                && o is Cached)),
            // A correctly signed message for the wrong session id is banned.
            (r matches Ok(o) ==> (!self.transcript.is_banned_spec(from) && !old(
                accum,
            ).is_banned_spec(from) && message_metadata_coherent(message@, self.verifier_id)
                && message@.direct_message.metadata.session_id != self.session_id ==> o is Error
                && final(accum).unprovable_errors@.dom().contains(from))),
            // A correctly signed message for an unexpected round id is banned.
            (r matches Ok(o) ==> (!self.transcript.is_banned_spec(from) && !old(
                accum,
            ).is_banned_spec(from) && message_metadata_coherent(message@, self.verifier_id)
                && message@.direct_message.metadata.session_id == self.session_id
                && message@.direct_message.metadata.round_id != self.round_id
                && !self.possible_next_rounds@.contains(
                message@.direct_message.metadata.round_id.spec_key(),
            ) ==> o is Error && final(accum).unprovable_errors@.dom().contains(from))),
            // A party sending twice in the same round is banned on the
            // second reception.
            (r matches Ok(o) ==> (!self.transcript.is_banned_spec(from) && !old(
                accum,
            ).is_banned_spec(from) && message_metadata_coherent(message@, self.verifier_id)
                && message@.direct_message.metadata.session_id == self.session_id
                && message@.direct_message.metadata.round_id == self.round_id && old(
                accum,
            ).processing@.contains(from) ==> o is Error
                && final(accum).unprovable_errors@.dom().contains(from))),
    {
        // A banned sender's messages are dropped silently.
        if self.transcript.is_banned(from) || accum.is_banned(from) {
            return Ok(
                PreprocessOutcome::Error(RemoteError::new("the sender is banned".to_owned())),
            );
        }
        let (session_id, round_id) = match message.unify_metadata(self.verifier_id) {
            Some(v) => v,
            None => {
                let err = "mismatched metadata in the bundled messages";
                match accum.register_unprovable_error(from, RemoteError::new(err.to_owned())) {
                    Ok(()) => {},
                    Err(e) => {
                        return Err(e);
                    },
                }
                return Ok(PreprocessOutcome::Error(RemoteError::new(err.to_owned())));
            },
        };
        if session_id != self.session_id {
            let err = "the received message has an incorrect session id";
            match accum.register_unprovable_error(from, RemoteError::new(err.to_owned())) {
                Ok(()) => {},
                Err(e) => {
                    return Err(e);
                },
            }
            return Ok(PreprocessOutcome::Error(RemoteError::new(err.to_owned())));
        }
        let for_this_round = round_id == self.round_id;
        if for_this_round {
            if accum.message_is_being_processed(from) {
                let err = "a message from this party is already being processed";
                match accum.register_unprovable_error(from, RemoteError::new(err.to_owned())) {
                    Ok(()) => {},
                    Err(e) => {
                        return Err(e);
                    },
                }
                return Ok(PreprocessOutcome::Error(RemoteError::new(err.to_owned())));
            }
        } else if self.possible_next_rounds.contains(round_id.key()) {
            if accum.message_is_cached(from, round_id) {
                let err = "a message for this round is already cached";
                match accum.register_unprovable_error(from, RemoteError::new(err.to_owned())) {
                    Ok(()) => {},
                    Err(e) => {
                        return Err(e);
                    },
                }
                return Ok(PreprocessOutcome::Error(RemoteError::new(err.to_owned())));
            }
        } else {
            let err = "unexpected message round id";
            match accum.register_unprovable_error(from, RemoteError::new(err.to_owned())) {
                Ok(()) => {},
                Err(e) => {
                    return Err(e);
                },
            }
            return Ok(PreprocessOutcome::Error(RemoteError::new(err.to_owned())));
        }

        // Verify the signatures now.
        let signatures_ok = message.direct_message.verify(from) && message.echo_broadcast.verify(
            from,
        ) && message.normal_broadcast.verify(from);
        if !signatures_ok {
            let err = "message verification failed";
            match accum.register_unprovable_error(from, RemoteError::new(err.to_owned())) {
                Ok(()) => {},
                Err(e) => {
                    return Err(e);
                },
            }
            return Ok(PreprocessOutcome::Error(RemoteError::new(err.to_owned())));
        }

        let verified = VerifiedMessage {
            from,
            direct_message: message.direct_message,
            echo_broadcast: message.echo_broadcast,
            normal_broadcast: message.normal_broadcast,
        };
        if for_this_round {
            match accum.mark_processing(from) {
                Ok(()) => {},
                Err(e) => {
                    return Err(e);
                },
            }
            Ok(PreprocessOutcome::ToProcess(verified))
        } else {
            match accum.cache_message(verified) {
                Ok(()) => {},
                Err(e) => {
                    return Err(e);
                },
            }
            Ok(PreprocessOutcome::Cached)
        }
    }

    /// Terminates the session: commits the round's results to the
    /// transcript and reports that not enough messages were received. The
    /// parties that had not sent by then appear under this round in the
    /// report's missing messages, and are not banned by failing to send.
    pub fn terminate(self, accum: RoundAccumulator<R>) -> (r: Result<
        SessionReport<R::Output>,
        LocalError,
    >)
        requires
            self.wf(),
            accum.wf(self.session_id, self.verifier_id, self.round_id),
        ensures
            r is Ok <==> self.transcript.can_commit(
                self.round_id.spec_key(),
                accum.provable_errors@,
                accum.unprovable_errors@,
            ),
            r matches Ok(report) ==> ({
                &&& report.outcome is NotEnoughMessages
                &&& report.missing_messages@.dom().contains(self.round_id.spec_key())
                &&& report.missing_messages@[self.round_id.spec_key()]@
                    == accum.still_have_not_sent_messages@
                &&& forall|p: u64|
                    accum.still_have_not_sent_messages@.contains(p)
                        && !self.transcript.is_banned_spec(p) && !accum.is_banned_spec(p)
                        ==> !report.provable_errors@.dom().contains(p)
                        && !report.unprovable_errors@.dom().contains(p)
                &&& (forall|k: u64| #[trigger] report.provable_errors@.dom().contains(k)
                    ==> evidence_valid(report.provable_errors@[k]))
            }),
    {
        let round_id = self.round_id;
        let transcript = match self.transcript.update(
            round_id,
            accum.echo_broadcasts,
            accum.normal_broadcasts,
            accum.direct_messages,
            accum.provable_errors,
            accum.unprovable_errors,
            accum.still_have_not_sent_messages,
        ) {
            Ok(t) => t,
            Err(e) => {
                return Err(e);
            },
        };
        Ok(SessionReport::new(SessionOutcome::NotEnoughMessages, transcript))
    }
}

/// Converts the engine's accumulated payloads back into the round's own,
/// refusing the marker payloads of an echo round.
fn extract_main_payloads<R: Round>(payloads: IdMap<EnginePayload<R>>) -> (r: Result<
    IdMap<R::Payload>,
    LocalError,
>)
    ensures
        r is Ok <==> (forall|k: u64| #[trigger] payloads@.dom().contains(k) ==> payloads@[k] is Main),
        r matches Ok(m) ==> m@.dom() == payloads@.dom() && (forall|k: u64|
            #[trigger] m@.dom().contains(k) ==> payloads@[k] == EnginePayload::<R>::Main(m@[k])),
{
    let ghost orig = payloads@;
    let mut src = payloads;
    let mut out: IdMap<R::Payload> = IdMap::new();
    loop
        invariant
            forall|k: u64| #[trigger] out@.dom().contains(k) <==> orig.dom().contains(k)
                && !src@.dom().contains(k),
            forall|k: u64| #[trigger] out@.dom().contains(k) ==> orig[k]
                == EnginePayload::<R>::Main(out@[k]),
            forall|k: u64| #[trigger] src@.dom().contains(k) ==> orig.dom().contains(k)
                && src@[k] == orig[k],
        decreases src.elems().len(),
    {
        src.entries_facts();
        match src.pop() {
            None => {
                break ;
            },
            Some((k, v)) => {
                match v {
                    EnginePayload::Main(p) => {
                        if out.contains_key(k) {
                            proof {
                                assert(false);
                            }
                            return Err(
                                LocalError::new("a payload is recorded twice".to_owned()),
                            );
                        }
                        out.insert(k, p);
                    },
                    EnginePayload::Echo => {
                        proof {
                            assert(orig.dom().contains(k) && orig[k] is Echo);
                        }
                        return Err(
                            LocalError::new(
                                "an echo-round payload reached a protocol round".to_owned(),
                            ),
                        );
                    },
                }
            },
        }
    }
    proof {
        assert(out@.dom() =~= orig.dom());
    }
    Ok(out)
}

impl<R: Round> Session<R> {
    /// Attempts to finalize the current round: commits the round's results
    /// to the transcript, then either schedules the echo sub-round, hands
    /// over to the round the protocol chose next, or finishes with the
    /// protocol's result. A next round outside the declared possible set is
    /// refused; cached messages for the new round are returned, with those
    /// from parties banned meanwhile dropped.
    #[verifier::rlimit(100)]
    #[verifier::spinoff_prover]
    pub fn finalize_round(self, accum: RoundAccumulator<R>) -> (r: Result<
        RoundOutcome<R>,
        LocalError,
    >)
        requires
            self.wf(),
            accum.wf(self.session_id, self.verifier_id, self.round_id),
        ensures
            !self.transcript.can_commit(
                self.round_id.spec_key(),
                accum.provable_errors@,
                accum.unprovable_errors@,
            ) ==> r is Err,
            (self.state matches RoundState::Active(_) && (exists|k: u64|
                #[trigger] accum.payloads@.dom().contains(k) && !(accum.payloads@[k] is Main))
                ==> r is Err),
            r matches Ok(RoundOutcome::AnotherRound { session, cached_messages }) ==> ({
                &&& session.wf()
                &&& self.possible_next_rounds@.contains(session.round_id.spec_key())
                &&& session.session_id == self.session_id
                &&& session.verifier_id == self.verifier_id
                &&& (forall|p: u64|
                    self.transcript.is_banned_spec(p) || accum.is_banned_spec(p)
                        ==> session.transcript.is_banned_spec(p))
                &&& (forall|i: int| 0 <= i < cached_messages@.len() ==> vm_wf(
                    #[trigger] cached_messages@[i],
                    self.session_id,
                    self.verifier_id,
                    session.round_id.spec_key(),
                ) && !session.transcript.is_banned_spec(cached_messages@[i].from))
                &&& ({
                    let expected = unbanned_filter(
                        cached_for_round(accum.cached.elems(), session.round_id.spec_key()),
                        session.transcript,
                    );
                    &&& cached_messages@.len() == expected.len()
                    &&& (forall|i: int| 0 <= i < cached_messages@.len() ==> (
                    #[trigger] cached_messages@[i])@ == expected[i]@ && cached_messages@[i].from
                        == expected[i].from)
                })
            }),
            r matches Ok(RoundOutcome::Finished(report)) ==> ({
                &&& (forall|k: u64| #[trigger] report.provable_errors@.dom().contains(k)
                    ==> evidence_valid(report.provable_errors@[k]))
                &&& (forall|p: u64|
                    self.transcript.is_banned_spec(p) || accum.is_banned_spec(p)
                        ==> report.provable_errors@.dom().contains(p)
                        || report.unprovable_errors@.dom().contains(p))
            }),
    {
        let echo_round_needed = !self.echo_broadcast.is_none();
        let round_id = self.round_id;

        if echo_round_needed {
            // An echo round must follow: it keeps the main round alive
            // together with its payloads and artifacts.
            accum.echo_broadcasts.entries_facts();
            let echoes = accum.echo_broadcasts.clone();
            echoes.entries_facts();
            proof {
                assert forall|k: u64| #[trigger] echoes@.dom().contains(k) implies part_signed_by(
                    echoes@[k]@,
                    k,
                ) && echoes@[k]@.metadata == echo_part_meta(self.session_id, self.round_id) by {
                    assert(crate::utils::has_key(echoes.elems(), k));
                    let i = choose|i: int|
                        0 <= i < echoes.elems().len() && (#[trigger] echoes.elems()[i]).0 == k;
                    assert(cloned::<SignedMessagePart>(
                        accum.echo_broadcasts.elems()[i].1,
                        echoes.elems()[i].1,
                    ));
                    assert(accum.echo_broadcasts@.contains_pair(
                        k,
                        accum.echo_broadcasts.elems()[i].1,
                    ));
                    assert(echoes@.contains_pair(k, echoes.elems()[i].1));
                }
            }
            let transcript = match self.transcript.update(
                round_id,
                accum.echo_broadcasts,
                accum.normal_broadcasts,
                accum.direct_messages,
                accum.provable_errors,
                accum.unprovable_errors,
                accum.still_have_not_sent_messages,
            ) {
                Ok(t) => t,
                Err(e) => {
                    return Err(e);
                },
            };
            let main_round = match self.state {
                RoundState::Active(round) => round,
                RoundState::Echo(_) => {
                    return Err(
                        LocalError::new("an echo round produced an echo broadcast".to_owned()),
                    );
                },
            };
            let payloads = match extract_main_payloads::<R>(accum.payloads) {
                Ok(p) => p,
                Err(e) => {
                    return Err(e);
                },
            };
            let transition = main_round.transition_info();
            let echo_round = EchoRound::<R> {
                session_id: self.session_id,
                verifier_id: self.verifier_id,
                main_round_id: round_id,
                transition,
                echo_broadcast: self.echo_broadcast,
                echoes,
                destinations: self.message_destinations,
                expecting: self.expecting_messages_from,
                main_round,
                payloads,
                artifacts: accum.artifacts,
            };
            let echo_id = round_id.echo();
            let session = match Session::new_for_next_round(
                self.session_id,
                self.signer,
                RoundState::Echo(echo_round),
                transcript,
            ) {
                Ok(s) => s,
                Err(e) => {
                    return Err(e);
                },
            };
            proof {
                assert(session.round_id == echo_id);
            }
            let cached_messages = deliver_cached(
                accum.cached,
                echo_id,
                &session.transcript,
                Ghost(self.session_id),
                Ghost(self.verifier_id),
            );
            return Ok(RoundOutcome::AnotherRound { session, cached_messages });
        }

        let transcript = match self.transcript.update(
            round_id,
            accum.echo_broadcasts,
            accum.normal_broadcasts,
            accum.direct_messages,
            accum.provable_errors,
            accum.unprovable_errors,
            accum.still_have_not_sent_messages,
        ) {
            Ok(t) => t,
            Err(e) => {
                return Err(e);
            },
        };

        // Finalize the round itself: an echo round hands the main round its
        // own payloads and artifacts, a protocol round gets this round's.
        let outcome = match self.state {
            RoundState::Active(round) => {
                let payloads = match extract_main_payloads::<R>(accum.payloads) {
                    Ok(p) => p,
                    Err(e) => {
                        return Err(e);
                    },
                };
                round.finalize(payloads, accum.artifacts)
            },
            RoundState::Echo(echo_round) => echo_round.main_round.finalize(
                echo_round.payloads,
                echo_round.artifacts,
            ),
        };
        match outcome {
            Err(e) => Err(e),
            Ok(FinalizeOutcome::Finished(result)) => Ok(
                RoundOutcome::Finished(
                    SessionReport::new(SessionOutcome::Finished(result), transcript),
                ),
            ),
            Ok(FinalizeOutcome::AnotherRound(next_round)) => {
                let ti = next_round.transition_info();
                if !self.possible_next_rounds.contains(ti.id.key()) {
                    return Err(LocalError::new("unexpected next round id".to_owned()));
                }
                let session = match Session::new_for_next_round(
                    self.session_id,
                    self.signer,
                    RoundState::Active(next_round),
                    transcript,
                ) {
                    Ok(s) => s,
                    Err(e) => {
                        return Err(e);
                    },
                };
                if !(session.round_id() == ti.id) {
                    return Err(LocalError::new("the next round changed its id".to_owned()));
                }
                let cached_messages = deliver_cached(
                    accum.cached,
                    ti.id,
                    &session.transcript,
                    Ghost(self.session_id),
                    Ghost(self.verifier_id),
                );
                Ok(RoundOutcome::AnotherRound { session, cached_messages })
            },
        }
    }
}

/// The messages whose senders are not banned in the transcript, in order.
pub open spec fn unbanned_filter(s: Seq<VerifiedMessage>, t: Transcript) -> Seq<VerifiedMessage>
    decreases s.len(),
{
    if s.len() == 0 {
        Seq::empty()
    } else {
        let rest = unbanned_filter(s.drop_first(), t);
        if !t.is_banned_spec(s[0].from) {
            seq![s[0]] + rest
        } else {
            rest
        }
    }
}

proof fn lemma_unbanned_filter_push(s: Seq<VerifiedMessage>, m: VerifiedMessage, t: Transcript)
    ensures
        unbanned_filter(s.push(m), t) == unbanned_filter(s, t) + (if !t.is_banned_spec(m.from) {
            seq![m]
        } else {
            Seq::<VerifiedMessage>::empty()
        }),
    decreases s.len(),
{
    let pushed = s.push(m);
    let tail = if !t.is_banned_spec(m.from) {
        seq![m]
    } else {
        Seq::<VerifiedMessage>::empty()
    };
    if s.len() == 0 {
        assert(pushed[0] == m);
        assert(pushed.drop_first() =~= Seq::<VerifiedMessage>::empty());
        assert(pushed.drop_first() == Seq::<VerifiedMessage>::empty());
        assert(unbanned_filter(pushed.drop_first(), t) == Seq::<VerifiedMessage>::empty());
        assert(unbanned_filter(s, t) == Seq::<VerifiedMessage>::empty());
        assert(unbanned_filter(pushed, t) =~= unbanned_filter(s, t) + tail);
    } else {
        assert(pushed[0] == s[0]);
        assert(pushed.drop_first() =~= s.drop_first().push(m));
        assert(pushed.drop_first() == s.drop_first().push(m));
        lemma_unbanned_filter_push(s.drop_first(), m, t);
        assert(unbanned_filter(pushed.drop_first(), t) == unbanned_filter(s.drop_first(), t)
            + tail);
        assert(unbanned_filter(pushed, t) =~= unbanned_filter(s, t) + tail);
    }
}

/// Filtering depends only on the messages' content and senders: sequences
/// equal message for message in view and sender filter to sequences equal
/// the same way.
proof fn lemma_unbanned_filter_congruence(
    a: Seq<VerifiedMessage>,
    b: Seq<VerifiedMessage>,
    t: Transcript,
)
    requires
        a.len() == b.len(),
        forall|i: int| 0 <= i < a.len() ==> (#[trigger] a[i])@ == b[i]@ && a[i].from == b[i].from,
    ensures
        unbanned_filter(a, t).len() == unbanned_filter(b, t).len(),
        forall|i: int| 0 <= i < unbanned_filter(a, t).len() ==> (#[trigger] unbanned_filter(
            a,
            t,
        )[i])@ == unbanned_filter(b, t)[i]@ && unbanned_filter(a, t)[i].from == unbanned_filter(
            b,
            t,
        )[i].from,
    decreases a.len(),
{
    if a.len() == 0 {
    } else {
        assert(a[0]@ == b[0]@ && a[0].from == b[0].from);
        assert forall|i: int| 0 <= i < a.drop_first().len() implies (#[trigger] a.drop_first()[
        i])@ == b.drop_first()[i]@ && a.drop_first()[i].from == b.drop_first()[i].from by {
            assert(a[i + 1]@ == b[i + 1]@ && a[i + 1].from == b[i + 1].from);
        }
        lemma_unbanned_filter_congruence(a.drop_first(), b.drop_first(), t);
    }
}

/// Keeps the messages whose senders are not banned in the transcript.
#[verifier::spinoff_prover]
fn keep_unbanned(messages: Vec<VerifiedMessage>, transcript: &Transcript) -> (r: Vec<
    VerifiedMessage,
>)
    ensures
        r@ == unbanned_filter(messages@, *transcript),
{
    let ghost orig = messages@;
    let total = messages.len();
    let mut messages = messages;
    let mut out: Vec<VerifiedMessage> = Vec::new();
    let mut i: usize = 0;
    loop
        invariant
            i <= total,
            total == orig.len(),
            messages@ == orig.subrange(i as int, orig.len() as int),
            out@ == unbanned_filter(orig.take(i as int), *transcript),
        decreases orig.len() - i,
    {
        if messages.len() == 0 {
            break ;
        }
        let m = messages.remove(0);
        proof {
            assert(m == orig[i as int]);
            assert(messages@ =~= orig.subrange(i + 1, orig.len() as int));
            assert(orig.take(i + 1) =~= orig.take(i as int).push(m));
            lemma_unbanned_filter_push(orig.take(i as int), m, *transcript);
        }
        if !transcript.is_banned(m.from()) {
            out.push(m);
        }
        i += 1;
    }
    proof {
        assert(orig.take(orig.len() as int) =~= orig);
    }
    out
}


} // verus!
