//! The immutable record of a session: the signed message parts accepted in
//! each round, the errors registered against peers, and who failed to send
//! in time. It grows monotonically; in particular a peer once banned stays
//! banned.

use vstd::prelude::*;
use vstd::pervasive::cloned;
use crate::errors::{LocalError, RemoteError};
use crate::evidence::{evidence_valid, Evidence};
use crate::message::{part_signed_by, PartKind, SessionId, SignedMessagePart, SignedPartView};
use crate::round_id::RoundId;
use crate::utils::{IdMap, IdSet};

verus! {

/// The signed part stored for a sender in a round, if any.
pub open spec fn stored_part(
    parts: Map<u64, IdMap<SignedMessagePart>>,
    round_key: u64,
    from: u64,
) -> Option<SignedPartView> {
    if parts.dom().contains(round_key) && parts[round_key]@.dom().contains(from) {
        Some(parts[round_key]@[from]@)
    } else {
        None
    }
}

/// Every part in a per-sender map is signed by its sender, for this session,
/// under this round key and kind, with a destination exactly for direct
/// messages.
pub open spec fn part_map_wf(
    m: Map<u64, SignedMessagePart>,
    session_id: SessionId,
    round_key: u64,
    kind: PartKind,
    me: u64,
) -> bool {
    forall|s: u64| #[trigger] m.dom().contains(s) ==> part_signed_by(m[s]@, s)
        && m[s]@.metadata.session_id == session_id && m[s]@.metadata.round_id.spec_key()
        == round_key && m[s]@.metadata.kind == kind && m[s]@.metadata.destination == (
    if kind is DirectMessage {
        Some(me)
    } else {
        None::<u64>
    })
}

/// The per-round record of signed messages and errors.
#[derive(Debug)]
pub struct Transcript {
    /// Accepted echo broadcasts: round key, then sender.
    pub echo_broadcasts: IdMap<IdMap<SignedMessagePart>>,
    /// Accepted normal broadcasts: round key, then sender.
    pub normal_broadcasts: IdMap<IdMap<SignedMessagePart>>,
    /// Accepted direct messages: round key, then sender.
    pub direct_messages: IdMap<IdMap<SignedMessagePart>>,
    /// The evidence registered against each guilty party.
    pub provable_errors: IdMap<Evidence>,
    /// The reason each party was banned without evidence.
    pub unprovable_errors: IdMap<RemoteError>,
    /// The parties that failed to send in time, per round key.
    pub missing_messages: IdMap<IdSet>,
}

impl Transcript {
    /// Whether any error has been recorded against the party; all further
    /// messages from a banned party are ignored.
    pub open spec fn is_banned_spec(&self, from: u64) -> bool {
        self.provable_errors@.dom().contains(from) || self.unprovable_errors@.dom().contains(from)
    }

    /// Whether one round's results can still be committed: the round is not
    /// yet recorded, and none of the error parties is already recorded.
    pub open spec fn can_commit(
        &self,
        round_key: u64,
        provable: Map<u64, Evidence>,
        unprovable: Map<u64, RemoteError>,
    ) -> bool {
        &&& !self.echo_broadcasts@.dom().contains(round_key)
        &&& !self.normal_broadcasts@.dom().contains(round_key)
        &&& !self.direct_messages@.dom().contains(round_key)
        &&& !self.missing_messages@.dom().contains(round_key)
        &&& forall|k: u64| #[trigger] provable.dom().contains(k)
            ==> !self.provable_errors@.dom().contains(k)
        &&& forall|k: u64| #[trigger] unprovable.dom().contains(k)
            ==> !self.unprovable_errors@.dom().contains(k)
    }

    /// Every stored part was signature-checked on intake: signed by its
    /// sender for this session, filed under its own round and kind.
    pub open spec fn parts_wf(&self, session_id: SessionId, me: u64) -> bool {
        &&& forall|rk: u64| #[trigger] self.echo_broadcasts@.dom().contains(rk) ==> part_map_wf(
            self.echo_broadcasts@[rk]@,
            session_id,
            rk,
            PartKind::EchoBroadcast,
            me,
        )
        &&& forall|rk: u64| #[trigger] self.normal_broadcasts@.dom().contains(rk) ==> part_map_wf(
            self.normal_broadcasts@[rk]@,
            session_id,
            rk,
            PartKind::NormalBroadcast,
            me,
        )
        &&& forall|rk: u64| #[trigger] self.direct_messages@.dom().contains(rk) ==> part_map_wf(
            self.direct_messages@[rk]@,
            session_id,
            rk,
            PartKind::DirectMessage,
            me,
        )
    }

    /// Every stored evidence carries the engine's construction guarantee.
    pub open spec fn all_evidence_valid(&self) -> bool {
        forall|k: u64| #[trigger] self.provable_errors@.dom().contains(k) ==> evidence_valid(
            self.provable_errors@[k],
        )
    }

    /// An empty transcript.
    pub fn new() -> (r: Self)
        ensures
            r.echo_broadcasts@ == Map::<u64, IdMap<SignedMessagePart>>::empty(),
            r.normal_broadcasts@ == Map::<u64, IdMap<SignedMessagePart>>::empty(),
            r.direct_messages@ == Map::<u64, IdMap<SignedMessagePart>>::empty(),
            r.provable_errors@ == Map::<u64, Evidence>::empty(),
            r.unprovable_errors@ == Map::<u64, RemoteError>::empty(),
            r.missing_messages@ == Map::<u64, IdSet>::empty(),
            forall|p: u64| !r.is_banned_spec(p),
            r.all_evidence_valid(),
            forall|sid: SessionId, me: u64| #[trigger] r.parts_wf(sid, me),
    {
        Transcript {
            echo_broadcasts: IdMap::new(),
            normal_broadcasts: IdMap::new(),
            direct_messages: IdMap::new(),
            provable_errors: IdMap::new(),
            unprovable_errors: IdMap::new(),
            missing_messages: IdMap::new(),
        }
    }

    /// Commits one round's results: files the three part maps and the
    /// missing-senders set under the round, and merges the errors into the
    /// cumulative maps. A round committed twice, or a second error for the
    /// same party, is a bug and is refused.
    pub fn update(
        self,
        round_id: RoundId,
        echo_broadcasts: IdMap<SignedMessagePart>,
        normal_broadcasts: IdMap<SignedMessagePart>,
        direct_messages: IdMap<SignedMessagePart>,
        provable_errors: IdMap<Evidence>,
        unprovable_errors: IdMap<RemoteError>,
        missing_messages: IdSet,
    ) -> (r: Result<Self, LocalError>)
        ensures
            r is Ok <==> self.can_commit(
                round_id.spec_key(),
                provable_errors@,
                unprovable_errors@,
            ),
            r matches Ok(t) ==> {
                &&& t.echo_broadcasts@ == self.echo_broadcasts@.insert(
                    round_id.spec_key(),
                    echo_broadcasts,
                )
                &&& t.normal_broadcasts@ == self.normal_broadcasts@.insert(
                    round_id.spec_key(),
                    normal_broadcasts,
                )
                &&& t.direct_messages@ == self.direct_messages@.insert(
                    round_id.spec_key(),
                    direct_messages,
                )
                &&& t.missing_messages@ == self.missing_messages@.insert(
                    round_id.spec_key(),
                    missing_messages,
                )
                &&& !self.echo_broadcasts@.dom().contains(round_id.spec_key())
                &&& forall|k: u64| #[trigger] t.provable_errors@.dom().contains(k)
                    <==> self.provable_errors@.dom().contains(k)
                    || provable_errors@.dom().contains(k)
                &&& forall|k: u64| #[trigger] self.provable_errors@.dom().contains(k)
                    ==> t.provable_errors@[k] == self.provable_errors@[k]
                &&& forall|k: u64| #[trigger] provable_errors@.dom().contains(k)
                    ==> t.provable_errors@[k] == provable_errors@[k]
                &&& forall|k: u64| #[trigger] t.unprovable_errors@.dom().contains(k)
                    <==> self.unprovable_errors@.dom().contains(k)
                    || unprovable_errors@.dom().contains(k)
                &&& forall|p: u64| self.is_banned_spec(p) ==> t.is_banned_spec(p)
                &&& (self.all_evidence_valid() && (forall|k: u64|
                    #[trigger] provable_errors@.dom().contains(k) ==> evidence_valid(
                        provable_errors@[k],
                    )) ==> t.all_evidence_valid())
                &&& (forall|sid: SessionId, me: u64|
                    self.parts_wf(sid, me) && part_map_wf(
                        echo_broadcasts@,
                        sid,
                        round_id.spec_key(),
                        PartKind::EchoBroadcast,
                        me,
                    ) && part_map_wf(
                        normal_broadcasts@,
                        sid,
                        round_id.spec_key(),
                        PartKind::NormalBroadcast,
                        me,
                    ) && part_map_wf(
                        direct_messages@,
                        sid,
                        round_id.spec_key(),
                        PartKind::DirectMessage,
                        me,
                    ) ==> #[trigger] t.parts_wf(sid, me))
            },
    {
        let key = round_id.key();
        if self.echo_broadcasts.contains_key(key) || self.normal_broadcasts.contains_key(key)
            || self.direct_messages.contains_key(key) || self.missing_messages.contains_key(key) {
            return Err(LocalError::new("this round is already in the transcript".to_owned()));
        }
        let mut all_echo_broadcasts = self.echo_broadcasts;
        let mut all_normal_broadcasts = self.normal_broadcasts;
        let mut all_direct_messages = self.direct_messages;
        let mut all_missing_messages = self.missing_messages;
        all_echo_broadcasts.insert(key, echo_broadcasts);
        all_normal_broadcasts.insert(key, normal_broadcasts);
        all_direct_messages.insert(key, direct_messages);
        all_missing_messages.insert(key, missing_messages);

        let ghost orig_provable = self.provable_errors@;
        let ghost new_provable = provable_errors@;
        let mut all_provable_errors = self.provable_errors;
        let mut src = provable_errors;
        loop
            invariant
                forall|k: u64| #[trigger] all_provable_errors@.dom().contains(k)
                    <==> orig_provable.dom().contains(k) || (new_provable.dom().contains(k)
                    && !src@.dom().contains(k)),
                forall|k: u64| #[trigger] orig_provable.dom().contains(k)
                    ==> all_provable_errors@[k] == orig_provable[k],
                forall|k: u64| #[trigger] new_provable.dom().contains(k) && !src@.dom().contains(
                    k,
                ) ==> all_provable_errors@[k] == new_provable[k] && !orig_provable.dom().contains(
                    k,
                ),
                forall|k: u64| #[trigger] src@.dom().contains(k) ==> new_provable.dom().contains(
                    k,
                ) && src@[k] == new_provable[k],
            decreases src.elems().len(),
        {
            src.entries_facts();
            match src.pop() {
                None => {
                    break ;
                },
                Some((k, v)) => {
                    if all_provable_errors.contains_key(k) {
                        return Err(
                            LocalError::new(
                                "an error for this party is already registered".to_owned(),
                            ),
                        );
                    }
                    all_provable_errors.insert(k, v);
                },
            }
        }

        let ghost orig_unprovable = self.unprovable_errors@;
        let ghost new_unprovable = unprovable_errors@;
        let mut all_unprovable_errors = self.unprovable_errors;
        let mut src2 = unprovable_errors;
        loop
            invariant
                forall|k: u64| #[trigger] all_unprovable_errors@.dom().contains(k)
                    <==> orig_unprovable.dom().contains(k) || (new_unprovable.dom().contains(k)
                    && !src2@.dom().contains(k)),
                forall|k: u64| #[trigger] orig_unprovable.dom().contains(k)
                    ==> all_unprovable_errors@[k] == orig_unprovable[k],
                forall|k: u64| #[trigger] new_unprovable.dom().contains(k)
                    && !src2@.dom().contains(k) ==> all_unprovable_errors@[k] == new_unprovable[k]
                    && !orig_unprovable.dom().contains(k),
                forall|k: u64| #[trigger] src2@.dom().contains(k)
                    ==> new_unprovable.dom().contains(k) && src2@[k] == new_unprovable[k],
            decreases src2.elems().len(),
        {
            src2.entries_facts();
            match src2.pop() {
                None => {
                    break ;
                },
                Some((k, v)) => {
                    if all_unprovable_errors.contains_key(k) {
                        return Err(
                            LocalError::new(
                                "an error for this party is already registered".to_owned(),
                            ),
                        );
                    }
                    all_unprovable_errors.insert(k, v);
                },
            }
        }

        Ok(
            Transcript {
                echo_broadcasts: all_echo_broadcasts,
                normal_broadcasts: all_normal_broadcasts,
                direct_messages: all_direct_messages,
                provable_errors: all_provable_errors,
                unprovable_errors: all_unprovable_errors,
                missing_messages: all_missing_messages,
            },
        )
    }

    /// The echo broadcast a sender was recorded with in a round.
    pub fn get_echo_broadcast(&self, round_id: RoundId, from: u64) -> (r: Result<
        SignedMessagePart,
        LocalError,
    >)
        ensures
            r matches Ok(p) ==> stored_part(self.echo_broadcasts@, round_id.spec_key(), from)
                == Some(p@),
            r is Err ==> stored_part(self.echo_broadcasts@, round_id.spec_key(), from) is None,
    {
        match self.echo_broadcasts.get(round_id.key()) {
            Some(m) => match m.get(from) {
                Some(p) => Ok(p.clone()),
                None => Err(
                    LocalError::new("no echo broadcast registered for the sender".to_owned()),
                ),
            },
            None => Err(LocalError::new("no echo broadcasts registered for the round".to_owned())),
        }
    }

    /// The normal broadcast a sender was recorded with in a round.
    pub fn get_normal_broadcast(&self, round_id: RoundId, from: u64) -> (r: Result<
        SignedMessagePart,
        LocalError,
    >)
        ensures
            r matches Ok(p) ==> stored_part(self.normal_broadcasts@, round_id.spec_key(), from)
                == Some(p@),
            r is Err ==> stored_part(self.normal_broadcasts@, round_id.spec_key(), from) is None,
    {
        match self.normal_broadcasts.get(round_id.key()) {
            Some(m) => match m.get(from) {
                Some(p) => Ok(p.clone()),
                None => Err(
                    LocalError::new("no normal broadcast registered for the sender".to_owned()),
                ),
            },
            None => Err(
                LocalError::new("no normal broadcasts registered for the round".to_owned()),
            ),
        }
    }

    /// The direct message a sender was recorded with in a round.
    pub fn get_direct_message(&self, round_id: RoundId, from: u64) -> (r: Result<
        SignedMessagePart,
        LocalError,
    >)
        ensures
            r matches Ok(p) ==> stored_part(self.direct_messages@, round_id.spec_key(), from)
                == Some(p@),
            r is Err ==> stored_part(self.direct_messages@, round_id.spec_key(), from) is None,
    {
        match self.direct_messages.get(round_id.key()) {
            Some(m) => match m.get(from) {
                Some(p) => Ok(p.clone()),
                None => Err(
                    LocalError::new("no direct message registered for the sender".to_owned()),
                ),
            },
            None => Err(LocalError::new("no direct messages registered for the round".to_owned())),
        }
    }

    /// Whether any error has been recorded against the party.
    pub fn is_banned(&self, from: u64) -> (r: bool)
        ensures
            r == self.is_banned_spec(from),
    {
        self.provable_errors.contains_key(from) || self.unprovable_errors.contains_key(from)
    }

    /// A copy of all echo broadcasts recorded for a round, by sender; each
    /// copied part has the same mathematical content as the stored one.
    pub fn echo_broadcasts(&self, round_id: RoundId) -> (r: Result<
        IdMap<SignedMessagePart>,
        LocalError,
    >)
        ensures
            r is Ok <==> self.echo_broadcasts@.dom().contains(round_id.spec_key()),
            r matches Ok(m) ==> self.echo_broadcasts@.dom().contains(round_id.spec_key()) && {
                let stored = self.echo_broadcasts@[round_id.spec_key()];
                &&& m.elems().len() == stored.elems().len()
                &&& forall|i: int| 0 <= i < stored.elems().len() ==> (#[trigger] m.elems()[i]).0
                    == stored.elems()[i].0 && m.elems()[i].1@ == stored.elems()[i].1@
            },
    {
        match self.echo_broadcasts.get(round_id.key()) {
            Some(m) => {
                let c = m.clone();
                proof {
                    assert forall|i: int| 0 <= i < m.elems().len() implies (#[trigger] c.elems()[
                    i]).0 == m.elems()[i].0 && c.elems()[i].1@ == m.elems()[i].1@ by {
                        assert(cloned::<SignedMessagePart>(m.elems()[i].1, c.elems()[i].1));
                    }
                }
                Ok(c)
            },
            None => Err(
                LocalError::new("echo broadcasts for the round are not in the transcript".to_owned()),
            ),
        }
    }
}

/// Possible outcomes of running a session.
#[derive(Debug)]
pub enum SessionOutcome<T> {
    /// The protocol successfully produced its result.
    Finished(T),
    /// The execution stalled because not enough messages were received to
    /// finalize a round.
    NotEnoughMessages,
}

/// The report of a session execution: the outcome, every error registered
/// against a peer, and who failed to send in time.
#[derive(Debug)]
pub struct SessionReport<T> {
    /// The session outcome.
    pub outcome: SessionOutcome<T>,
    /// The provable errors collected during the execution, as evidence that
    /// can be published to prove them.
    pub provable_errors: IdMap<Evidence>,
    /// The unprovable errors collected during the execution.
    pub unprovable_errors: IdMap<RemoteError>,
    /// The parties that did not send their messages in time, per round key.
    pub missing_messages: IdMap<IdSet>,
}

impl<T> SessionReport<T> {
    /// Assembles the report of a finished or stalled session.
    pub fn new(outcome: SessionOutcome<T>, transcript: Transcript) -> (r: Self)
        ensures
            r.outcome == outcome,
            r.provable_errors@ == transcript.provable_errors@,
            r.unprovable_errors@ == transcript.unprovable_errors@,
            r.missing_messages@ == transcript.missing_messages@,
    {
        SessionReport {
            outcome,
            provable_errors: transcript.provable_errors,
            unprovable_errors: transcript.unprovable_errors,
            missing_messages: transcript.missing_messages,
        }
    }
}

} // verus!
