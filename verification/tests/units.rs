//! Unit tests of the building blocks: the byte codec, the signing scheme,
//! identifiers, the collections, and evidence verification on hand-built
//! values.

use manul::codec::{read_bytes, read_opt_bytes, read_string, read_u64, write_bytes, write_opt_bytes, write_string, write_u64};
use manul::echo::{read_pack, write_pack};
use manul::errors::{LocalError, MessageValidationError, ProtocolValidationError};
use manul::evidence::{Evidence, EvidenceEnum, MismatchedBroadcastsEvidence};
use manul::message::{
    compute_prehash, digest, opt_bytes_eq, verify_signature, DirectMessage, EchoBroadcast,
    Metadata, NormalBroadcast, PartKind, ProtocolMessage, SessionId, SignedMessagePart, Signer,
};
use manul::round::{
    Artifact, CommunicationInfo, EvidenceMessages, FinalizeOutcome, PartsDeclaration, Payload,
    ReceiveError, Round, RequiredMessageParts, TransitionInfo,
};
use manul::round_id::RoundId;
use manul::utils::{verify_that, GetRound, IdMap, IdSet, SafeGet, Without};

#[test]
fn u64_codec_round_trip() {
    let mut out: Vec<u8> = Vec::new();
    write_u64(&mut out, 0);
    write_u64(&mut out, 1);
    write_u64(&mut out, 0xdead_beef_0102_0304);
    write_u64(&mut out, u64::MAX);
    assert_eq!(out.len(), 32);
    let (a, p1) = read_u64(&out, 0).unwrap();
    let (b, p2) = read_u64(&out, p1).unwrap();
    let (c, p3) = read_u64(&out, p2).unwrap();
    let (d, p4) = read_u64(&out, p3).unwrap();
    assert_eq!((a, b, c, d), (0, 1, 0xdead_beef_0102_0304, u64::MAX));
    assert_eq!(p4, 32);
    assert!(read_u64(&out, 25).is_none());
}

#[test]
fn bytes_codec_round_trip() {
    let mut out: Vec<u8> = Vec::new();
    write_bytes(&mut out, &vec![1, 2, 3]);
    write_bytes(&mut out, &vec![]);
    let (a, p1) = read_bytes(&out, 0).unwrap();
    let (b, p2) = read_bytes(&out, p1).unwrap();
    assert_eq!(a, vec![1, 2, 3]);
    assert_eq!(b, Vec::<u8>::new());
    assert_eq!(p2, out.len());
    // A length prefix pointing past the end is refused.
    let mut bad: Vec<u8> = Vec::new();
    write_u64(&mut bad, 100);
    bad.push(7);
    assert!(read_bytes(&bad, 0).is_none());
}

#[test]
fn optional_bytes_codec_round_trip() {
    let mut out: Vec<u8> = Vec::new();
    write_opt_bytes(&mut out, &Some(vec![9, 8]));
    write_opt_bytes(&mut out, &None);
    let (a, p1) = read_opt_bytes(&out, 0).unwrap();
    let (b, p2) = read_opt_bytes(&out, p1).unwrap();
    assert_eq!(a, Some(vec![9, 8]));
    assert_eq!(b, None);
    assert_eq!(p2, out.len());
}

#[test]
fn string_codec_round_trip() {
    let mut out: Vec<u8> = Vec::new();
    write_string(&mut out, &"Invalid position".to_string());
    write_string(&mut out, &"".to_string());
    let (a, p1) = read_string(&out, 0).unwrap();
    let (b, p2) = read_string(&out, p1).unwrap();
    assert_eq!(a, "Invalid position");
    assert_eq!(b, "");
    assert_eq!(p2, out.len());
    // Bytes that are not UTF-8 are refused.
    let mut bad: Vec<u8> = Vec::new();
    write_bytes(&mut bad, &vec![0xff, 0xfe]);
    assert!(read_string(&bad, 0).is_none());
}

#[test]
fn digest_is_deterministic_and_spreads() {
    let a = digest(&vec![1, 2, 3]);
    let b = digest(&vec![1, 2, 3]);
    let c = digest(&vec![3, 2, 1]);
    assert_eq!(a, b);
    assert_ne!(a, c);
    assert_ne!(digest(&vec![]), digest(&vec![0]));
}

#[test]
fn signing_and_verification() {
    let signer = Signer::new(42);
    assert_eq!(signer.verifying_key(), 42);
    let meta = Metadata::new(SessionId::new(7), RoundId::new(1), PartKind::DirectMessage, Some(3));
    let payload = Some(vec![1, 2]);
    let h = compute_prehash(&meta, &payload);
    let signature = signer.sign_digest(h);
    assert!(verify_signature(42, h, signature));
    assert!(!verify_signature(43, h, signature));
    assert!(!verify_signature(42, h.wrapping_add(1), signature));
}

#[test]
fn signed_part_binds_metadata_and_payload() {
    let signer = Signer::new(5);
    let meta = Metadata::new(SessionId::new(1), RoundId::new(2), PartKind::EchoBroadcast, None);
    let part = SignedMessagePart::sign(&signer, meta, Some(vec![10, 20]));
    assert!(part.verify(5));
    assert!(!part.verify(6));
    let mut altered = part.clone();
    altered.payload = Some(vec![10, 21]);
    assert!(!altered.verify(5));
    let mut altered_meta = part.clone();
    altered_meta.metadata =
        Metadata::new(SessionId::new(2), RoundId::new(2), PartKind::EchoBroadcast, None);
    assert!(!altered_meta.verify(5));
}

#[test]
fn round_id_echo_flag_and_key() {
    let one = RoundId::new(1);
    assert_eq!(one.round_num(), 1);
    assert!(!one.is_echo());
    let echo = one.echo();
    assert!(echo.is_echo());
    assert_eq!(echo.non_echo(), one);
    assert_ne!(one.key(), echo.key());
    assert_eq!(RoundId::from_key(one.key()), Some(one));
    assert_eq!(RoundId::from_key(echo.key()), Some(echo));
    assert_eq!(RoundId::from_key(100_000), None);
}

#[test]
fn id_map_and_set_operations() {
    let mut m: IdMap<u8> = IdMap::new();
    assert!(m.is_empty());
    m.insert(10, 1);
    m.insert(20, 2);
    assert_eq!(m.len(), 2);
    assert!(m.contains_key(10));
    assert_eq!(m.get(20), Some(&2));
    assert_eq!(m.get(30), None);
    assert_eq!(m.remove(10), Some(1));
    assert_eq!(m.remove(10), None);
    assert_eq!(m.pop(), Some((20, 2)));
    assert!(m.is_empty());

    let mut s = IdSet::new();
    s.insert(1);
    s.insert(2);
    assert!(s.contains(1));
    assert!(!s.contains(3));
    assert!(s.remove(1));
    assert!(!s.remove(1));
    assert_eq!(s.len(), 1);
    let s = s.without(&2);
    assert!(s.is_empty());

    let mut m2: IdMap<u8> = IdMap::new();
    m2.insert(4, 44);
    assert!(m2.safe_get("the map", &4).is_ok());
    assert!(m2.safe_get("the map", &5).is_err());
    let m2 = m2.without(&4);
    assert!(m2.is_empty());
}

#[test]
fn required_message_parts_builders() {
    let p = RequiredMessageParts::direct_message();
    assert!(p.direct_message && !p.echo_broadcast && !p.normal_broadcast);
    let p = p.and_echo_broadcast();
    assert!(p.direct_message && p.echo_broadcast && !p.normal_broadcast);
    let p = p.and_normal_broadcast();
    assert!(p.direct_message && p.echo_broadcast && p.normal_broadcast);
    let q = RequiredMessageParts::echo_broadcast().and_direct_message();
    assert!(q.direct_message && q.echo_broadcast && !q.normal_broadcast);
    let n = RequiredMessageParts::normal_broadcast();
    assert!(!n.direct_message && !n.echo_broadcast && n.normal_broadcast);
}

#[test]
fn verify_that_reflects_its_condition() {
    assert!(verify_that(true).is_ok());
    assert!(verify_that(false).is_err());
}

#[test]
fn message_part_containers() {
    let d = DirectMessage::new(vec![1]);
    assert!(!d.is_none());
    let d2 = DirectMessage::none();
    assert!(d2.is_none());
    let e = EchoBroadcast::none();
    assert!(e.is_none());
    let n = NormalBroadcast::new(vec![]);
    assert!(!n.is_none());
    assert!(opt_bytes_eq(&Some(vec![1, 2]), &Some(vec![1, 2])));
    assert!(!opt_bytes_eq(&Some(vec![1, 2]), &Some(vec![1, 3])));
    assert!(!opt_bytes_eq(&Some(vec![]), &None));
    assert!(opt_bytes_eq(&None, &None));
}

#[test]
fn payload_and_artifact_wrappers() {
    let p = Payload::new(7u8);
    assert_eq!(p.try_to_typed().unwrap(), 7);
    let p = Payload::new(9u8);
    assert_eq!(p.downcast().unwrap(), 9);
    let e = Payload::empty();
    assert_eq!(e.try_to_typed().unwrap(), ());
    let a = Artifact::new("kept".to_string());
    assert_eq!(a.try_to_typed().unwrap(), "kept");
    let a = Artifact::new(3u8);
    assert_eq!(a.downcast().unwrap(), 3);
    let e = Artifact::empty();
    assert_eq!(e.try_to_typed().unwrap(), ());
}

#[test]
fn echo_pack_codec_round_trip() {
    let signer1 = Signer::new(1);
    let signer2 = Signer::new(2);
    let meta = Metadata::new(SessionId::new(9), RoundId::new(1), PartKind::EchoBroadcast, None);
    let mut pack: IdMap<SignedMessagePart> = IdMap::new();
    pack.insert(1, SignedMessagePart::sign(&signer1, meta, Some(vec![0])));
    pack.insert(2, SignedMessagePart::sign(&signer2, meta, Some(vec![1])));
    let mut out: Vec<u8> = Vec::new();
    write_pack(&mut out, &pack);
    let (decoded, end) = read_pack(&out, 0).unwrap();
    assert_eq!(end, out.len());
    assert_eq!(decoded.len(), 2);
    let p1 = decoded.get(1).unwrap();
    assert_eq!(p1.payload.clone(), Some(vec![0]));
    assert!(p1.verify(1));
    let p2 = decoded.get(2).unwrap();
    assert_eq!(p2.payload.clone(), Some(vec![1]));
    assert!(p2.verify(2));
}

/// A protocol shape with no rounds, for verifying hand-built evidence whose
/// checks never reach the protocol's own hooks.
struct NullRound;

impl Round for NullRound {
    type Payload = Payload<()>;
    type Artifact = Artifact<()>;
    type Output = ();

    fn transition_info(&self) -> TransitionInfo {
        TransitionInfo {
            id: RoundId::new(1),
            possible_next_rounds: IdSet::new(),
            may_produce_result: true,
        }
    }

    fn communication_info(&self) -> CommunicationInfo {
        CommunicationInfo::regular(&IdSet::new())
    }

    fn parts_declaration(&self) -> PartsDeclaration {
        PartsDeclaration { direct_message: false, echo_broadcast: false, normal_broadcast: false }
    }

    fn make_direct_message(
        &self,
        _destination: u64,
    ) -> Result<Option<(DirectMessage, Artifact<()>)>, LocalError> {
        Ok(None)
    }

    fn make_echo_broadcast(&self) -> Result<Option<EchoBroadcast>, LocalError> {
        Ok(None)
    }

    fn make_normal_broadcast(&self) -> Result<Option<NormalBroadcast>, LocalError> {
        Ok(None)
    }

    fn receive_message(
        &self,
        _from: u64,
        _message: ProtocolMessage,
    ) -> Result<Payload<()>, ReceiveError> {
        Ok(Payload::empty())
    }

    fn finalize(
        self,
        _payloads: IdMap<Payload<()>>,
        _artifacts: IdMap<Artifact<()>>,
    ) -> Result<FinalizeOutcome<NullRound>, LocalError> {
        Ok(FinalizeOutcome::Finished(()))
    }

    fn verify_direct_message_is_invalid(
        _round_id: &RoundId,
        _message: &DirectMessage,
    ) -> Result<(), MessageValidationError> {
        Err(MessageValidationError::InvalidEvidence("no rounds are declared".to_string()))
    }

    fn verify_echo_broadcast_is_invalid(
        _round_id: &RoundId,
        _message: &EchoBroadcast,
    ) -> Result<(), MessageValidationError> {
        Err(MessageValidationError::InvalidEvidence("no rounds are declared".to_string()))
    }

    fn verify_normal_broadcast_is_invalid(
        _round_id: &RoundId,
        _message: &NormalBroadcast,
    ) -> Result<(), MessageValidationError> {
        Err(MessageValidationError::InvalidEvidence("no rounds are declared".to_string()))
    }

    fn verify_evidence(
        _round_id: &RoundId,
        _guilty_party: u64,
        _session_id: &SessionId,
        _error_bytes: &Vec<u8>,
        _messages: &EvidenceMessages,
    ) -> Result<(), ProtocolValidationError> {
        Err(ProtocolValidationError::InvalidEvidence("no rounds are declared".to_string()))
    }
}

fn mismatched_evidence(same_payloads: bool) -> Evidence {
    let signer = Signer::new(4);
    let meta = Metadata::new(SessionId::new(3), RoundId::new(1), PartKind::EchoBroadcast, None);
    let first = SignedMessagePart::sign(&signer, meta, Some(vec![1]));
    let second_payload = if same_payloads { vec![1] } else { vec![2] };
    let second = SignedMessagePart::sign(&signer, meta, Some(second_payload));
    Evidence {
        guilty_party: 4,
        description: "mismatched broadcasts".to_string(),
        evidence: EvidenceEnum::MismatchedBroadcasts(MismatchedBroadcastsEvidence {
            we_received: first,
            echoed_to_us: second,
        }),
    }
}

#[test]
fn mismatched_broadcasts_evidence_is_conclusive() {
    let evidence = mismatched_evidence(false);
    assert_eq!(evidence.guilty_party(), 4);
    assert_eq!(evidence.description().as_str(), "mismatched broadcasts");
    assert!(evidence.verify::<NullRound>().is_ok());
    // Deterministic: the same outcome on every run.
    assert!(evidence.verify::<NullRound>().is_ok());
    // Identical payloads prove nothing.
    let inconclusive = mismatched_evidence(true);
    assert!(inconclusive.verify::<NullRound>().is_err());
}

#[test]
fn evidence_serialization_cycles_preserve_verification() {
    let evidence = mismatched_evidence(false);
    let mut bytes = evidence.serialize();
    for _cycle in 0..3 {
        let restored = Evidence::deserialize(&bytes).expect("deserialize failed");
        assert_eq!(restored.guilty_party(), 4);
        assert_eq!(restored.description().as_str(), "mismatched broadcasts");
        assert!(restored.verify::<NullRound>().is_ok());
        bytes = restored.serialize();
    }
    // A truncated serialization is refused.
    let truncated = bytes[..bytes.len() - 1].to_vec();
    assert!(Evidence::deserialize(&truncated).is_err());
}

#[test]
fn session_id_from_seed_is_deterministic() {
    let a = SessionId::from_seed(&vec![1, 2, 3]);
    let b = SessionId::from_seed(&vec![1, 2, 3]);
    let c = SessionId::from_seed(&vec![1, 2, 4]);
    assert_eq!(a, b);
    assert_ne!(a, c);
}

#[test]
fn get_round_looks_up_by_round_number() {
    let mut m: IdMap<u8> = IdMap::new();
    m.insert(RoundId::new(1).key(), 11);
    m.insert(RoundId::new(2).key(), 22);
    assert_eq!(m.get_round(1).cloned().unwrap(), 11);
    assert_eq!(m.get_round(2).cloned().unwrap(), 22);
    assert!(m.get_round(3).is_err());
}
