//! End-to-end runs of the session engine over a small two-round summing
//! protocol, including the misbehavior scenarios.

use manul::errors::{LocalError, MessageValidationError, ProtocolValidationError};
use manul::message::{
    DirectMessage, EchoBroadcast, Message, Metadata, NormalBroadcast, PartKind, ProtocolMessage,
    SessionId, SignedMessagePart, Signer, VerifiedMessage,
};
use manul::round::{
    Artifact, CommunicationInfo, EvidenceMessages, FinalizeOutcome, PartsDeclaration, Payload,
    ProvableError, ReceiveError, RequiredMessageParts, RequiredMessages, Round, TransitionInfo,
};
use manul::round_id::RoundId;
use manul::session::{CanFinalize, ProcessedArtifact, ProcessedMessage, RoundAccumulator, RoundOutcome, Session};
use manul::transcript::{SessionOutcome, SessionReport};
use manul::utils::{IdMap, IdSet};

/// The party context: who I am, who the others are, and everyone's position.
#[derive(Clone)]
struct Context {
    id: u64,
    all_ids: Vec<u64>,
}

impl Context {
    fn new(id: u64, all_ids: &[u64]) -> Self {
        let mut ids = all_ids.to_vec();
        ids.sort();
        Context { id, all_ids: ids }
    }

    fn pos_of(&self, id: u64) -> u8 {
        self.all_ids.iter().position(|x| *x == id).expect("unknown id") as u8
    }

    fn my_pos(&self) -> u8 {
        self.pos_of(self.id)
    }

    fn others(&self) -> IdSet {
        let mut set = IdSet::new();
        for id in &self.all_ids {
            if *id != self.id {
                set.insert(*id);
            }
        }
        set
    }
}

/// The two rounds of the summing protocol: each round sends `(my_pos,
/// your_pos)` point to point; round one also echo-broadcasts `my_pos` and
/// normal-broadcasts `(0, my_pos)`; each round sums the received positions.
enum SumRound {
    One { ctx: Context },
    Two { ctx: Context, round1_sum: u8 },
}

fn decode_direct(m: &DirectMessage) -> Result<(u8, u8), ReceiveError> {
    match &m.payload {
        Some(b) if b.len() == 2 => Ok((b[0], b[1])),
        _ => Err(ReceiveError::InvalidDirectMessage(
            "cannot decode the direct message".to_string(),
        )),
    }
}

impl Round for SumRound {
    type Payload = Payload<u8>;
    type Artifact = Artifact<()>;
    type Output = u8;

    fn transition_info(&self) -> TransitionInfo {
        match self {
            SumRound::One { .. } => {
                let mut next = IdSet::new();
                next.insert(RoundId::new(2).key());
                TransitionInfo { id: RoundId::new(1), possible_next_rounds: next, may_produce_result: false }
            }
            SumRound::Two { .. } => TransitionInfo {
                id: RoundId::new(2),
                possible_next_rounds: IdSet::new(),
                may_produce_result: true,
            },
        }
    }

    fn communication_info(&self) -> CommunicationInfo {
        let ctx = match self {
            SumRound::One { ctx } => ctx,
            SumRound::Two { ctx, .. } => ctx,
        };
        CommunicationInfo::regular(&ctx.others())
    }

    fn parts_declaration(&self) -> PartsDeclaration {
        match self {
            SumRound::One { .. } => PartsDeclaration {
                direct_message: true,
                echo_broadcast: true,
                normal_broadcast: true,
            },
            SumRound::Two { .. } => PartsDeclaration {
                direct_message: true,
                echo_broadcast: false,
                normal_broadcast: false,
            },
        }
    }

    fn make_direct_message(
        &self,
        destination: u64,
    ) -> Result<Option<(DirectMessage, Artifact<()>)>, LocalError> {
        let ctx = match self {
            SumRound::One { ctx } => ctx,
            SumRound::Two { ctx, .. } => ctx,
        };
        let bytes = vec![ctx.my_pos(), ctx.pos_of(destination)];
        Ok(Some((DirectMessage::new(bytes), Artifact::empty())))
    }

    fn make_echo_broadcast(&self) -> Result<Option<EchoBroadcast>, LocalError> {
        match self {
            SumRound::One { ctx } => Ok(Some(EchoBroadcast::new(vec![ctx.my_pos()]))),
            SumRound::Two { .. } => Ok(None),
        }
    }

    fn make_normal_broadcast(&self) -> Result<Option<NormalBroadcast>, LocalError> {
        match self {
            SumRound::One { ctx } => Ok(Some(NormalBroadcast::new(vec![0, ctx.my_pos()]))),
            SumRound::Two { .. } => Ok(None),
        }
    }

    fn receive_message(
        &self,
        _from: u64,
        message: ProtocolMessage,
    ) -> Result<Payload<u8>, ReceiveError> {
        let (ctx, round_num) = match self {
            SumRound::One { ctx } => (ctx, 1u8),
            SumRound::Two { ctx, .. } => (ctx, 2u8),
        };
        if round_num == 1 {
            match &message.echo_broadcast.payload {
                Some(b) if b.len() == 1 => {}
                _ => {
                    return Err(ReceiveError::InvalidEchoBroadcast(
                        "cannot decode the echo broadcast".to_string(),
                    ))
                }
            }
            match &message.normal_broadcast.payload {
                Some(b) if b.len() == 2 => {}
                _ => {
                    return Err(ReceiveError::InvalidNormalBroadcast(
                        "cannot decode the normal broadcast".to_string(),
                    ))
                }
            }
        } else {
            if message.echo_broadcast.payload.is_some() {
                return Err(ReceiveError::InvalidEchoBroadcast(
                    "an echo broadcast where none is declared".to_string(),
                ));
            }
            if message.normal_broadcast.payload.is_some() {
                return Err(ReceiveError::InvalidNormalBroadcast(
                    "a normal broadcast where none is declared".to_string(),
                ));
            }
        }
        let (their_pos, my_pos_claimed) = decode_direct(&message.direct_message)?;
        if my_pos_claimed != ctx.my_pos() {
            let required = if round_num == 1 {
                RequiredMessages::new(RequiredMessageParts::direct_message(), None, None)
            } else {
                let mut previous = IdMap::new();
                previous.insert(RoundId::new(1).key(), RequiredMessageParts::direct_message());
                let mut echos = IdSet::new();
                echos.insert(RoundId::new(1).key());
                RequiredMessages::new(
                    RequiredMessageParts::direct_message(),
                    Some(previous),
                    Some(echos),
                )
            };
            return Err(ReceiveError::Protocol(ProvableError::new(
                "Invalid position".to_string(),
                vec![round_num],
                required,
            )));
        }
        Ok(Payload::new(their_pos))
    }

    fn finalize(
        self,
        payloads: IdMap<Payload<u8>>,
        _artifacts: IdMap<Artifact<()>>,
    ) -> Result<FinalizeOutcome<SumRound>, LocalError> {
        let mut payloads = payloads;
        let mut sum: u8 = 0;
        while let Some((_from, payload)) = payloads.pop() {
            sum += payload.try_to_typed()?;
        }
        match self {
            SumRound::One { ctx } => {
                let round1_sum = sum + ctx.my_pos();
                Ok(FinalizeOutcome::AnotherRound(SumRound::Two { ctx, round1_sum }))
            }
            SumRound::Two { ctx, round1_sum } => {
                Ok(FinalizeOutcome::Finished(sum + ctx.my_pos() + round1_sum))
            }
        }
    }

    fn verify_direct_message_is_invalid(
        round_id: &RoundId,
        message: &DirectMessage,
    ) -> Result<(), MessageValidationError> {
        let decodable = matches!(&message.payload, Some(b) if b.len() == 2);
        let expected = round_id.round_num() == 1 || round_id.round_num() == 2;
        if expected && decodable {
            Err(MessageValidationError::InvalidEvidence(
                "the message decodes correctly".to_string(),
            ))
        } else if !expected && message.payload.is_none() {
            Err(MessageValidationError::InvalidEvidence(
                "the slot is correctly absent".to_string(),
            ))
        } else {
            Ok(())
        }
    }

    fn verify_echo_broadcast_is_invalid(
        round_id: &RoundId,
        message: &EchoBroadcast,
    ) -> Result<(), MessageValidationError> {
        let decodable = matches!(&message.payload, Some(b) if b.len() == 1);
        if round_id.round_num() == 1 && !round_id.is_echo() {
            if decodable {
                Err(MessageValidationError::InvalidEvidence(
                    "the message decodes correctly".to_string(),
                ))
            } else {
                Ok(())
            }
        } else if message.payload.is_none() {
            Err(MessageValidationError::InvalidEvidence(
                "the slot is correctly absent".to_string(),
            ))
        } else {
            Ok(())
        }
    }

    fn verify_normal_broadcast_is_invalid(
        round_id: &RoundId,
        message: &NormalBroadcast,
    ) -> Result<(), MessageValidationError> {
        let decodable = matches!(&message.payload, Some(b) if b.len() == 2);
        if round_id.round_num() == 1 && !round_id.is_echo() {
            if decodable {
                Err(MessageValidationError::InvalidEvidence(
                    "the message decodes correctly".to_string(),
                ))
            } else {
                Ok(())
            }
        } else if message.payload.is_none() {
            Err(MessageValidationError::InvalidEvidence(
                "the slot is correctly absent".to_string(),
            ))
        } else {
            Ok(())
        }
    }

    fn verify_evidence(
        round_id: &RoundId,
        _guilty_party: u64,
        _session_id: &SessionId,
        error_bytes: &Vec<u8>,
        messages: &EvidenceMessages,
    ) -> Result<(), ProtocolValidationError> {
        let bad = |m: &str| ProtocolValidationError::InvalidEvidence(m.to_string());
        if error_bytes.len() != 1 {
            return Err(bad("an unknown protocol error"));
        }
        let claimed_round = error_bytes[0];
        if claimed_round != round_id.round_num() || round_id.is_echo() {
            return Err(bad("the error does not belong to this round"));
        }
        match &messages.direct_message().payload {
            Some(b) if b.len() == 2 => {}
            _ => return Err(bad("the direct message cannot be decoded")),
        }
        if claimed_round == 2 {
            let previous = messages.previous_direct_message(1)?;
            match &previous.payload {
                Some(b) if b.len() == 2 => {}
                _ => return Err(bad("the previous direct message cannot be decoded")),
            }
            let echos = messages.combined_echos(1)?;
            let mut i = 0;
            while i < echos.len() {
                match &echos.value_at(i).payload {
                    Some(b) if b.len() == 1 => {}
                    _ => return Err(bad("an echoed broadcast cannot be decoded")),
                }
                i += 1;
            }
            Ok(())
        } else if claimed_round == 1 {
            Ok(())
        } else {
            Err(bad("an unknown round"))
        }
    }
}

/// One node of the synchronous harness.
struct Node {
    id: u64,
    signer: Signer,
    session: Option<Session<SumRound>>,
    accum: Option<RoundAccumulator<SumRound>>,
    pending: Vec<manul::message::VerifiedMessage>,
    sent: bool,
    report: Option<SessionReport<u8>>,
}

/// What a delivery looks like to the tamper hook.
struct Delivery {
    round: RoundId,
    from: u64,
    to: u64,
    message: Message,
}

fn setup(ids: &[u64], session_id: SessionId) -> Vec<Node> {
    ids.iter()
        .map(|id| {
            let ctx = Context::new(*id, ids);
            let signer = Signer::new(*id);
            let session = Session::new(session_id, signer, SumRound::One { ctx })
                .expect("session construction failed");
            let accum = session.make_accumulator();
            Node {
                id: *id,
                signer,
                session: Some(session),
                accum: Some(accum),
                pending: Vec::new(),
                sent: false,
                report: None,
            }
        })
        .collect()
}

/// Runs all parties in lockstep until each has a report, tampering with
/// deliveries through the hook.
fn run_protocol<F>(ids: &[u64], session_id: SessionId, mut tamper: F) -> Vec<(u64, SessionReport<u8>)>
where
    F: FnMut(&Delivery, &Signer) -> Option<Message>,
{
    let mut nodes = setup(ids, session_id);
    for _iteration in 0..12 {
        if nodes.iter().all(|n| n.report.is_some()) {
            break;
        }
        // Generate this round's outgoing bundles.
        let mut outbox: Vec<Delivery> = Vec::new();
        for idx in 0..nodes.len() {
            if nodes[idx].report.is_some() || nodes[idx].sent {
                continue;
            }
            nodes[idx].sent = true;
            let from = nodes[idx].id;
            let node = &mut nodes[idx];
            let session = node.session.as_ref().unwrap();
            let accum = node.accum.as_mut().unwrap();
            let round = session.round_id();
            let mut dests = Vec::new();
            let dest_set = session.message_destinations();
            for i in 0..dest_set.len() {
                dests.push(dest_set.at(i));
            }
            for dest in dests {
                let (message, artifact) = session.make_message(dest).expect("make_message failed");
                session.add_artifact(accum, artifact).expect("add_artifact failed");
                outbox.push(Delivery { round, from, to: dest, message });
            }
        }
        // Deliver, through the tamper hook.
        for delivery in outbox {
            let signer = nodes
                .iter()
                .find(|n| n.id == delivery.from)
                .map(|n| n.signer)
                .unwrap();
            let message = match tamper(&delivery, &signer) {
                Some(m) => m,
                None => continue,
            };
            let to = delivery.to;
            let from = delivery.from;
            let node = nodes.iter_mut().find(|n| n.id == to).unwrap();
            if node.report.is_some() {
                continue;
            }
            let session = node.session.as_ref().unwrap();
            let accum = node.accum.as_mut().unwrap();
            let outcome = session
                .preprocess_message(accum, from, message)
                .expect("preprocess failed");
            if let Some(vm) = outcome.ok() {
                let processed = session.process_message(vm);
                session
                    .add_processed_message(accum, processed)
                    .expect("add_processed_message failed");
            }
        }
        // Feed messages cached for the round just entered.
        for node in nodes.iter_mut() {
            if node.report.is_some() {
                continue;
            }
            let session = node.session.as_ref().unwrap();
            let accum = node.accum.as_mut().unwrap();
            for vm in node.pending.drain(..) {
                let processed = session.process_message(vm);
                session
                    .add_processed_message(accum, processed)
                    .expect("add_processed_message failed");
            }
        }
        // Finalize where possible.
        for node in nodes.iter_mut() {
            if node.report.is_some() {
                continue;
            }
            let can = node
                .session
                .as_ref()
                .unwrap()
                .can_finalize(node.accum.as_ref().unwrap());
            match can {
                CanFinalize::Yes => {
                    let session = node.session.take().unwrap();
                    let accum = node.accum.take().unwrap();
                    match session.finalize_round(accum).expect("finalize failed") {
                        RoundOutcome::Finished(report) => {
                            node.report = Some(report);
                        }
                        RoundOutcome::AnotherRound { session, cached_messages } => {
                            let accum = session.make_accumulator();
                            node.session = Some(session);
                            node.accum = Some(accum);
                            node.pending = cached_messages;
                            node.sent = false;
                        }
                    }
                }
                CanFinalize::Never => {
                    let session = node.session.take().unwrap();
                    let accum = node.accum.take().unwrap();
                    node.report = Some(session.terminate(accum).expect("terminate failed"));
                }
                CanFinalize::NotYet => {}
            }
        }
    }
    // Whoever is still waiting has run out of time: terminate.
    nodes
        .into_iter()
        .map(|node| {
            let report = match node.report {
                Some(r) => r,
                None => {
                    let session = node.session.unwrap();
                    let accum = node.accum.unwrap();
                    session.terminate(accum).expect("terminate failed")
                }
            };
            (node.id, report)
        })
        .collect()
}

fn report_of(reports: &[(u64, SessionReport<u8>)], id: u64) -> &SessionReport<u8> {
    &reports.iter().find(|(i, _)| *i == id).unwrap().1
}

#[test]
fn happy_path_two_round_sum() {
    let ids = [1u64, 2, 3];
    let reports = run_protocol(&ids, SessionId::new(77), |d, _s| Some(Message {
        direct_message: d.message.direct_message.clone(),
        echo_broadcast: d.message.echo_broadcast.clone(),
        normal_broadcast: d.message.normal_broadcast.clone(),
    }));
    for id in ids {
        let report = report_of(&reports, id);
        assert!(matches!(report.outcome, SessionOutcome::Finished(6)));
        assert!(report.provable_errors.is_empty());
        assert!(report.unprovable_errors.is_empty());
    }
}

fn forward(d: &Delivery) -> Message {
    Message {
        direct_message: d.message.direct_message.clone(),
        echo_broadcast: d.message.echo_broadcast.clone(),
        normal_broadcast: d.message.normal_broadcast.clone(),
    }
}

#[test]
fn tampered_round_one_direct_message() {
    let ids = [1u64, 2, 3];
    let session_id = SessionId::new(78);
    let reports = run_protocol(&ids, session_id, |d, signer| {
        let mut m = forward(d);
        if d.from == 1 && d.to == 2 && d.round == RoundId::new(1) {
            // Replace `your_position` with this party's own position.
            m.direct_message = SignedMessagePart::sign(
                signer,
                Metadata::new(session_id, d.round, PartKind::DirectMessage, Some(d.to)),
                Some(vec![0, 0]),
            );
        }
        Some(m)
    });
    let report = report_of(&reports, 2);
    let evidence = report.provable_errors.get(1).expect("no evidence against the tamperer");
    assert_eq!(evidence.guilty_party(), 1);
    assert_eq!(evidence.description().as_str(), "Invalid position");
    // A third party replays the checks from the evidence alone.
    assert!(evidence.verify::<SumRound>().is_ok());
}

#[test]
fn tampered_round_two_direct_message() {
    let ids = [1u64, 2, 3];
    let session_id = SessionId::new(79);
    let reports = run_protocol(&ids, session_id, |d, signer| {
        let mut m = forward(d);
        if d.from == 1 && d.to == 2 && d.round == RoundId::new(2) {
            m.direct_message = SignedMessagePart::sign(
                signer,
                Metadata::new(session_id, d.round, PartKind::DirectMessage, Some(d.to)),
                Some(vec![0, 0]),
            );
        }
        Some(m)
    });
    let report = report_of(&reports, 2);
    let evidence = report.provable_errors.get(1).expect("no evidence against the tamperer");
    assert_eq!(evidence.guilty_party(), 1);
    assert_eq!(evidence.description().as_str(), "Invalid position");
    assert!(evidence.verify::<SumRound>().is_ok());
    // The evidence survives serialization cycles.
    let bytes = evidence.serialize();
    let restored = manul::evidence::Evidence::deserialize(&bytes).expect("deserialize failed");
    assert!(restored.verify::<SumRound>().is_ok());
}

#[test]
fn garbage_echo_broadcast() {
    let ids = [1u64, 2, 3];
    let session_id = SessionId::new(80);
    let reports = run_protocol(&ids, session_id, |d, signer| {
        let mut m = forward(d);
        if d.from == 1 && d.round == RoundId::new(1) {
            // Zero bytes in place of the echo broadcast, for every receiver.
            m.echo_broadcast = SignedMessagePart::sign(
                signer,
                Metadata::new(session_id, d.round, PartKind::EchoBroadcast, None),
                Some(vec![]),
            );
        }
        Some(m)
    });
    for id in [2u64, 3] {
        let report = report_of(&reports, id);
        let evidence = report.provable_errors.get(1).expect("no evidence against the tamperer");
        assert_eq!(evidence.guilty_party(), 1);
        assert!(evidence.verify::<SumRound>().is_ok());
    }
}

#[test]
fn broadcast_present_where_declared_absent() {
    let ids = [1u64, 2, 3];
    let session_id = SessionId::new(81);
    let reports = run_protocol(&ids, session_id, |d, signer| {
        let mut m = forward(d);
        if d.from == 1 && d.round == RoundId::new(2) {
            // Round two declares no echo broadcast; send one anyway.
            m.echo_broadcast = SignedMessagePart::sign(
                signer,
                Metadata::new(session_id, d.round, PartKind::EchoBroadcast, None),
                Some(vec![1]),
            );
        }
        Some(m)
    });
    let report = report_of(&reports, 2);
    let evidence = report.provable_errors.get(1).expect("no evidence against the tamperer");
    assert!(evidence.verify::<SumRound>().is_ok());
}

#[test]
fn mismatched_echo_broadcasts() {
    let ids = [1u64, 2, 3];
    let session_id = SessionId::new(82);
    let reports = run_protocol(&ids, session_id, |d, signer| {
        let mut m = forward(d);
        if d.from == 1 && d.to == 3 && d.round == RoundId::new(1) {
            // A decodable echo broadcast, but not the one the others got.
            m.echo_broadcast = SignedMessagePart::sign(
                signer,
                Metadata::new(session_id, d.round, PartKind::EchoBroadcast, None),
                Some(vec![9]),
            );
        }
        Some(m)
    });
    let detected = [2u64, 3]
        .iter()
        .filter(|id| report_of(&reports, **id).provable_errors.get(1).is_some())
        .count();
    assert!(detected >= 1, "nobody detected the mismatched broadcasts");
    for id in [2u64, 3] {
        if let Some(evidence) = report_of(&reports, id).provable_errors.get(1) {
            assert_eq!(evidence.guilty_party(), 1);
            assert!(evidence.verify::<SumRound>().is_ok());
            // Determinism: verification replays identically.
            assert!(evidence.verify::<SumRound>().is_ok());
            // And survives a serialization cycle.
            let bytes = evidence.serialize();
            let restored =
                manul::evidence::Evidence::deserialize(&bytes).expect("deserialize failed");
            assert_eq!(restored.guilty_party(), 1);
            assert!(restored.verify::<SumRound>().is_ok());
        }
    }
}

#[test]
fn missing_sender_is_reported_not_banned() {
    let ids = [1u64, 2, 3];
    let session_id = SessionId::new(83);
    let reports = run_protocol(&ids, session_id, |d, _signer| {
        if d.from == 3 {
            None  // Party 3 never sends anything.
        } else {
            Some(forward(d))
        }
    });
    for id in [1u64, 2] {
        let report = report_of(&reports, id);
        assert!(matches!(report.outcome, SessionOutcome::NotEnoughMessages));
        let missing = report
            .missing_messages
            .get(RoundId::new(1).key())
            .expect("no missing-messages entry for the first round");
        assert!(missing.contains(3));
        assert!(report.provable_errors.get(3).is_none());
        assert!(report.unprovable_errors.get(3).is_none());
    }
}

#[test]
fn wrong_session_id_is_banned() {
    let ids = [1u64, 2];
    let session_id = SessionId::new(84);
    let other_session = SessionId::new(85);
    let ctx1 = Context::new(1, &ids);
    let signer1 = Signer::new(1);
    let session1 = Session::new(session_id, signer1, SumRound::One { ctx: ctx1 }).unwrap();
    let mut accum1 = session1.make_accumulator();

    // Party 2 signs a coherent bundle, but for another session.
    let signer2 = Signer::new(2);
    let round = RoundId::new(1);
    let message = Message {
        direct_message: SignedMessagePart::sign(
            &signer2,
            Metadata::new(other_session, round, PartKind::DirectMessage, Some(1)),
            Some(vec![1, 0]),
        ),
        echo_broadcast: SignedMessagePart::sign(
            &signer2,
            Metadata::new(other_session, round, PartKind::EchoBroadcast, None),
            Some(vec![1]),
        ),
        normal_broadcast: SignedMessagePart::sign(
            &signer2,
            Metadata::new(other_session, round, PartKind::NormalBroadcast, None),
            Some(vec![0, 1]),
        ),
    };
    let outcome = session1.preprocess_message(&mut accum1, 2, message).unwrap();
    assert!(outcome.ok().is_none());
    assert!(accum1.is_banned(2));
}

#[test]
fn wrong_round_id_is_banned() {
    let ids = [1u64, 2];
    let session_id = SessionId::new(86);
    let ctx1 = Context::new(1, &ids);
    let session1 = Session::new(session_id, Signer::new(1), SumRound::One { ctx: ctx1 }).unwrap();
    let mut accum1 = session1.make_accumulator();

    let signer2 = Signer::new(2);
    let round = RoundId::new(9);
    let message = Message {
        direct_message: SignedMessagePart::sign(
            &signer2,
            Metadata::new(session_id, round, PartKind::DirectMessage, Some(1)),
            Some(vec![1, 0]),
        ),
        echo_broadcast: SignedMessagePart::sign(
            &signer2,
            Metadata::new(session_id, round, PartKind::EchoBroadcast, None),
            None,
        ),
        normal_broadcast: SignedMessagePart::sign(
            &signer2,
            Metadata::new(session_id, round, PartKind::NormalBroadcast, None),
            None,
        ),
    };
    let outcome = session1.preprocess_message(&mut accum1, 2, message).unwrap();
    assert!(outcome.ok().is_none());
    assert!(accum1.is_banned(2));
}

#[test]
fn double_send_is_banned_on_second_reception() {
    let ids = [1u64, 2];
    let session_id = SessionId::new(87);
    let ctx1 = Context::new(1, &ids);
    let ctx2 = Context::new(2, &ids);
    let session1 = Session::new(session_id, Signer::new(1), SumRound::One { ctx: ctx1 }).unwrap();
    let session2 = Session::new(session_id, Signer::new(2), SumRound::One { ctx: ctx2 }).unwrap();
    let mut accum1 = session1.make_accumulator();

    let (message, _artifact) = session2.make_message(1).unwrap();
    let copy = Message {
        direct_message: message.direct_message.clone(),
        echo_broadcast: message.echo_broadcast.clone(),
        normal_broadcast: message.normal_broadcast.clone(),
    };
    let first = session1.preprocess_message(&mut accum1, 2, message).unwrap();
    assert!(first.ok().is_some());
    assert!(!accum1.is_banned(2));
    let second = session1.preprocess_message(&mut accum1, 2, copy).unwrap();
    assert!(second.ok().is_none());
    assert!(accum1.is_banned(2));
}

#[test]
fn forged_signature_is_banned_without_evidence() {
    let ids = [1u64, 2];
    let session_id = SessionId::new(88);
    let ctx1 = Context::new(1, &ids);
    let session1 = Session::new(session_id, Signer::new(1), SumRound::One { ctx: ctx1 }).unwrap();
    let mut accum1 = session1.make_accumulator();

    // A bundle signed by party 9, claimed to come from party 2.
    let forger = Signer::new(9);
    let round = RoundId::new(1);
    let message = Message {
        direct_message: SignedMessagePart::sign(
            &forger,
            Metadata::new(session_id, round, PartKind::DirectMessage, Some(1)),
            Some(vec![1, 0]),
        ),
        echo_broadcast: SignedMessagePart::sign(
            &forger,
            Metadata::new(session_id, round, PartKind::EchoBroadcast, None),
            Some(vec![1]),
        ),
        normal_broadcast: SignedMessagePart::sign(
            &forger,
            Metadata::new(session_id, round, PartKind::NormalBroadcast, None),
            Some(vec![0, 1]),
        ),
    };
    let outcome = session1.preprocess_message(&mut accum1, 2, message).unwrap();
    assert!(outcome.ok().is_none());
    assert!(accum1.is_banned(2));
    assert!(report_is_unprovable(&accum1));
}

fn report_is_unprovable(accum: &RoundAccumulator<SumRound>) -> bool {
    accum.unprovable_errors.get(2).is_some() && accum.provable_errors.get(2).is_none()
}

#[test]
fn forged_entry_in_echo_pack() {
    let ids = [1u64, 2, 3];
    let session_id = SessionId::new(89);
    let echo_round = RoundId::new(1).echo();
    let reports = run_protocol(&ids, session_id, |d, signer| {
        let mut m = forward(d);
        if d.from == 2 && d.to == 3 && d.round == echo_round {
            // Party 2 rewrites its echo pack, attributing to party 1 a
            // broadcast that party 1 never signed.
            let bytes = m.normal_broadcast.payload.clone().expect("the pack is present");
            let (pack, _end) = manul::echo::read_pack(&bytes, 0).expect("the pack decodes");
            let mut forged_pack: manul::utils::IdMap<SignedMessagePart> =
                manul::utils::IdMap::new();
            let mut i = 0;
            while i < pack.len() {
                let key = pack.key_at(i);
                let part = if key == 1 {
                    SignedMessagePart::sign(
                        &Signer::new(9),
                        Metadata::new(session_id, RoundId::new(1), PartKind::EchoBroadcast, None),
                        Some(vec![0]),
                    )
                } else {
                    pack.value_at(i).clone()
                };
                forged_pack.insert(key, part);
                i += 1;
            }
            let mut forged_bytes: Vec<u8> = Vec::new();
            manul::echo::write_pack(&mut forged_bytes, &forged_pack);
            m.normal_broadcast = SignedMessagePart::sign(
                signer,
                Metadata::new(session_id, echo_round, PartKind::NormalBroadcast, None),
                Some(forged_bytes),
            );
        }
        Some(m)
    });
    let report = report_of(&reports, 3);
    let evidence = report.provable_errors.get(2).expect("no evidence against the pack sender");
    assert_eq!(evidence.guilty_party(), 2);
    assert!(evidence.verify::<SumRound>().is_ok());
    // The evidence stays conclusive across a serialization cycle.
    let bytes = evidence.serialize();
    let restored = manul::evidence::Evidence::deserialize(&bytes).expect("deserialize failed");
    assert!(restored.verify::<SumRound>().is_ok());
}

#[test]
fn early_message_is_cached_and_replayed_after_transition() {
    let ids = [1u64, 2];
    let session_id = SessionId::new(90);
    let s1 = Session::new(session_id, Signer::new(1), SumRound::One { ctx: Context::new(1, &ids) })
        .unwrap();
    let s2 = Session::new(session_id, Signer::new(2), SumRound::One { ctx: Context::new(2, &ids) })
        .unwrap();
    let mut accum1 = s1.make_accumulator();
    let mut accum2 = s2.make_accumulator();

    // Both parties build their first-round bundles.
    let (m12, art1) = s1.make_message(2).unwrap();
    s1.add_artifact(&mut accum1, art1).unwrap();
    let (m21, art2) = s2.make_message(1).unwrap();
    s2.add_artifact(&mut accum2, art2).unwrap();

    // Party 2 races ahead: it processes party 1's message and moves to the
    // echo round.
    let vm = s2.preprocess_message(&mut accum2, 1, m12).unwrap().ok().unwrap();
    let processed = s2.process_message(vm);
    s2.add_processed_message(&mut accum2, processed).unwrap();
    assert!(matches!(s2.can_finalize(&accum2), CanFinalize::Yes));
    let s2_echo = match s2.finalize_round(accum2).unwrap() {
        RoundOutcome::AnotherRound { session, cached_messages } => {
            assert!(cached_messages.is_empty());
            session
        }
        RoundOutcome::Finished(_) => panic!("the echo round should follow"),
    };
    assert!(s2_echo.round_id().is_echo());
    let mut accum2 = s2_echo.make_accumulator();
    let (pack21, art) = s2_echo.make_message(1).unwrap();
    s2_echo.add_artifact(&mut accum2, art).unwrap();

    // Party 1 is still in the first round: the echo-round pack arrives
    // early and is cached, and its sender is not punished.
    let outcome = s1.preprocess_message(&mut accum1, 2, pack21).unwrap();
    assert!(outcome.ok().is_none());
    assert!(!accum1.is_banned(2));

    // Once party 1 transitions, the cached pack is handed back, already
    // verified, and completes the echo round.
    let vm = s1.preprocess_message(&mut accum1, 2, m21).unwrap().ok().unwrap();
    let processed = s1.process_message(vm);
    s1.add_processed_message(&mut accum1, processed).unwrap();
    assert!(matches!(s1.can_finalize(&accum1), CanFinalize::Yes));
    let (s1_echo, replayed) = match s1.finalize_round(accum1).unwrap() {
        RoundOutcome::AnotherRound { session, cached_messages } => (session, cached_messages),
        RoundOutcome::Finished(_) => panic!("the echo round should follow"),
    };
    assert_eq!(replayed.len(), 1);
    let mut accum1 = s1_echo.make_accumulator();
    for vm in replayed {
        let processed = s1_echo.process_message(vm);
        s1_echo.add_processed_message(&mut accum1, processed).unwrap();
    }
    assert!(matches!(s1_echo.can_finalize(&accum1), CanFinalize::Yes));
}

fn require_send<T: Send>() {}

fn require_sync<T: Sync>() {}

#[test]
fn test_concurrency_bounds() {
    // Message creation and processing may be offloaded to worker tasks, so
    // the session and every value crossing a task boundary must be Send,
    // and the session additionally Sync for shared references.
    require_send::<Session<SumRound>>();
    require_sync::<Session<SumRound>>();
    require_send::<Message>();
    require_send::<VerifiedMessage>();
    require_send::<ProcessedArtifact<SumRound>>();
    require_send::<ProcessedMessage<SumRound>>();
}
