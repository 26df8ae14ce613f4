//! Message parts, metadata, and the detached-signature scheme binding them.
//!
//! A message part is either absent or a serialized payload. Before signing,
//! the engine computes a domain-separated pre-hash over the part's metadata
//! (session id, round id, part kind, destination) and its payload; the
//! signature covers that digest.

use vstd::prelude::*;
use crate::codec::{enc_u64, enc_bytes, enc_opt_bytes, dec_bytes, write_u64, write_opt_bytes, read_u64, read_opt_bytes, dec_opt_bytes, lemma_u64_round_trip, lemma_opt_bytes_round_trip};
use crate::round_id::RoundId;

verus! {

/// The initial state of the rolling digest.
pub const DIGEST_OFFSET: u64 = 0xcbf2_9ce4_8422_2325;

/// The multiplier of the rolling digest.
pub const DIGEST_PRIME: u64 = 0x100_0000_01b3;

/// One step of the rolling digest.
pub open spec fn digest_step(h: u64, b: u8) -> u64 {
    vstd::wrapping::u64_specs::wrapping_mul(h ^ (b as u64), DIGEST_PRIME)
}

/// The digest of a byte string: the default hash the engine pre-hashes
/// message parts with before signing.
pub open spec fn spec_digest(s: Seq<u8>) -> u64
    decreases s.len(),
{
    if s.len() == 0 {
        DIGEST_OFFSET
    } else {
        digest_step(spec_digest(s.drop_last()), s.last())
    }
}

/// Computes the digest of a byte string.
pub fn digest(bytes: &Vec<u8>) -> (h: u64)
    ensures
        h == spec_digest(bytes@),
{
    let n = bytes.len();
    let mut h: u64 = DIGEST_OFFSET;
    let mut i: usize = 0;
    while i < n
        invariant
            i <= n,
            h == spec_digest(bytes@.subrange(0, i as int)),
        decreases n - i,
    {
        h = (h ^ (bytes[i] as u64)).wrapping_mul(DIGEST_PRIME);
        proof {
            let pre = bytes@.subrange(0, i + 1);
            assert(pre.drop_last() =~= bytes@.subrange(0, i as int));
            assert(pre.last() == bytes@[i as int]);
        }
        i += 1;
    }
    proof {
        assert(bytes@.subrange(0, n as int) =~= bytes@);
    }
    h
}

/// A session identifier shared between the parties.
///
/// This must be the same for all nodes executing a session, and must be
/// created uniquely for each session execution, otherwise there is a danger
/// of replay attacks.
#[derive(Debug, Clone, Copy, PartialEq, Eq, Structural, Hash)]
pub struct SessionId {
    pub id: u64,
}

impl SessionId {
    /// Creates a session identifier deterministically from the given
    /// bytestring; every node executing a session must be given the same one.
    pub fn from_seed(seed: &Vec<u8>) -> (r: Self)
        ensures
            r.id == spec_digest(seed@),
    {
        SessionId { id: digest(seed) }
    }

    /// Wraps an already-agreed identifier.
    pub fn new(id: u64) -> (r: Self)
        ensures
            r.id == id,
    {
        SessionId { id }
    }
}

/// Tells the three kinds of message part apart in metadata and signing.
#[derive(Debug, Clone, Copy, PartialEq, Eq, Structural)]
pub enum PartKind {
    /// A point-to-point message to a single destination.
    DirectMessage,
    /// A broadcast whose consistency is cross-checked in an echo round.
    EchoBroadcast,
    /// A broadcast delivered without any cross-check.
    NormalBroadcast,
}

/// The byte standing for a part kind in encodings.
pub open spec fn kind_byte(k: PartKind) -> u8 {
    match k {
        PartKind::DirectMessage => 0u8,
        PartKind::EchoBroadcast => 1u8,
        PartKind::NormalBroadcast => 2u8,
    }
}

/// The metadata bound to every signed message part.
#[derive(Debug, Clone, Copy, PartialEq, Eq, Structural)]
pub struct Metadata {
    /// The session the part belongs to.
    pub session_id: SessionId,
    /// The round the part belongs to.
    pub round_id: RoundId,
    /// Which of the three part slots this is.
    pub kind: PartKind,
    /// The destination; filled for direct messages only.
    pub destination: Option<u64>,
}

impl Metadata {
    /// Assembles the metadata for a part of the given kind.
    pub fn new(session_id: SessionId, round_id: RoundId, kind: PartKind, destination: Option<u64>)
        -> (r: Self)
        ensures
            r == (Metadata { session_id, round_id, kind, destination }),
    {
        Metadata { session_id, round_id, kind, destination }
    }
}

/// The encoding of an optional id: a tag byte, then the id.
pub open spec fn enc_opt_u64(o: Option<u64>) -> Seq<u8> {
    match o {
        None => seq![0u8],
        Some(x) => seq![1u8] + enc_u64(x),
    }
}

/// The encoding of metadata, the domain-separation prefix of the pre-hash.
pub open spec fn enc_metadata(m: Metadata) -> Seq<u8> {
    enc_u64(m.session_id.id) + seq![m.round_id.round_num] + seq![
        (if m.round_id.is_echo {
            1u8
        } else {
            0u8
        }),
    ] + seq![kind_byte(m.kind)] + enc_opt_u64(m.destination)
}

/// Appends the encoding of metadata.
pub fn write_metadata(out: &mut Vec<u8>, m: &Metadata)
    ensures
        final(out)@ == old(out)@ + enc_metadata(*m),
{
    write_u64(out, m.session_id.id);
    out.push(m.round_id.round_num);
    out.push(if m.round_id.is_echo { 1u8 } else { 0u8 });
    out.push(
        match m.kind {
            PartKind::DirectMessage => 0u8,
            PartKind::EchoBroadcast => 1u8,
            PartKind::NormalBroadcast => 2u8,
        },
    );
    match m.destination {
        None => out.push(0u8),
        Some(x) => {
            out.push(1u8);
            write_u64(out, x);
        },
    }
    assert(out@ =~= old(out)@ + enc_metadata(*m));
}

/// The metadata starting at `pos`, by the spec of the format.
pub open spec fn dec_metadata(s: Seq<u8>, pos: int) -> Option<(Metadata, int)> {
    if pos + 11 <= s.len() {
        let session_id = SessionId { id: crate::codec::u64_of_bytes(s.subrange(pos, pos + 8)) };
        let round_num = s[pos + 8];
        if s[pos + 9] == 0u8 || s[pos + 9] == 1u8 {
            let round_id = RoundId { round_num, is_echo: s[pos + 9] == 1u8 };
            let kind = if s[pos + 10] == 0u8 {
                Some(PartKind::DirectMessage)
            } else if s[pos + 10] == 1u8 {
                Some(PartKind::EchoBroadcast)
            } else if s[pos + 10] == 2u8 {
                Some(PartKind::NormalBroadcast)
            } else {
                None
            };
            match kind {
                None => None,
                Some(kind) => {
                    if pos + 12 <= s.len() {
                        if s[pos + 11] == 0u8 {
                            Some(
                                (
                                    Metadata { session_id, round_id, kind, destination: None },
                                    pos + 12,
                                ),
                            )
                        } else if s[pos + 11] == 1u8 && pos + 20 <= s.len() {
                            Some(
                                (
                                    Metadata {
                                        session_id,
                                        round_id,
                                        kind,
                                        destination: Some(
                                            crate::codec::u64_of_bytes(
                                                s.subrange(pos + 12, pos + 20),
                                            ),
                                        ),
                                    },
                                    pos + 20,
                                ),
                            )
                        } else {
                            None
                        }
                    } else {
                        None
                    }
                },
            }
        } else {
            None
        }
    } else {
        None
    }
}

/// Reads the metadata at `pos`.
pub fn read_metadata(bytes: &Vec<u8>, pos: usize) -> (r: Option<(Metadata, usize)>)
    ensures
        match r {
            Some((m, next)) => dec_metadata(bytes@, pos as int) == Some((m, next as int)),
            None => dec_metadata(bytes@, pos as int) is None,
        },
{
    let (session, p) = match read_u64(bytes, pos) {
        Some(v) => v,
        None => {
            return None;
        },
    };
    if bytes.len() < 4 || p > bytes.len() - 4 {
        return None;
    }
    let round_num = bytes[p];
    let echo_byte = bytes[p + 1];
    if echo_byte != 0 && echo_byte != 1 {
        return None;
    }
    let kind = if bytes[p + 2] == 0 {
        PartKind::DirectMessage
    } else if bytes[p + 2] == 1 {
        PartKind::EchoBroadcast
    } else if bytes[p + 2] == 2 {
        PartKind::NormalBroadcast
    } else {
        return None;
    };
    let round_id = RoundId { round_num, is_echo: echo_byte == 1 };
    let session_id = SessionId { id: session };
    if bytes[p + 3] == 0 {
        Some((Metadata { session_id, round_id, kind, destination: None }, p + 4))
    } else if bytes[p + 3] == 1 {
        match read_u64(bytes, p + 4) {
            Some((dest, next)) => Some(
                (Metadata { session_id, round_id, kind, destination: Some(dest) }, next),
            ),
            None => None,
        }
    } else {
        None
    }
}

/// Decoding metadata undoes the encoding.
pub proof fn lemma_metadata_round_trip(s: Seq<u8>, pos: int, m: Metadata)
    requires
        0 <= pos,
        pos + enc_metadata(m).len() <= s.len(),
        s.subrange(pos, pos + enc_metadata(m).len()) == enc_metadata(m),
    ensures
        dec_metadata(s, pos) == Some((m, pos + enc_metadata(m).len())),
{
    let e = enc_metadata(m);
    lemma_u64_round_trip(m.session_id.id);
    assert(s.subrange(pos, pos + 8) =~= e.subrange(0, 8));
    assert(e.subrange(0, 8) =~= enc_u64(m.session_id.id));
    assert(s[pos + 8] == e[8] && s[pos + 9] == e[9] && s[pos + 10] == e[10]);
    assert(s[pos + 11] == e[11]);
    match m.destination {
        None => {
            assert(e.len() == 12);
        },
        Some(x) => {
            assert(e.len() == 20);
            lemma_u64_round_trip(x);
            assert(s.subrange(pos + 12, pos + 20) =~= e.subrange(12, 20));
            assert(e.subrange(12, 20) =~= enc_u64(x));
        },
    }
}

/// The pre-hash a part is signed over: the digest of the metadata encoding
/// followed by the payload encoding.
pub open spec fn prehash(m: Metadata, payload: Option<Seq<u8>>) -> u64 {
    spec_digest(enc_metadata(m) + enc_opt_bytes(payload))
}

/// Computes the pre-hash of a part.
pub fn compute_prehash(m: &Metadata, payload: &Option<Vec<u8>>) -> (h: u64)
    ensures
        h == prehash(
            *m,
            match *payload {
                Some(ref b) => Some(b@),
                None => None,
            },
        ),
{
    let mut buf: Vec<u8> = Vec::new();
    write_metadata(&mut buf, m);
    write_opt_bytes(&mut buf, payload);
    digest(&buf)
}

/// What a signature over a digest by the holder of an identity is: the
/// digest of the identity and the pre-hash chained together.
///
/// This is the engine's built-in detached-signature scheme, and it is a
/// stand-in: the identity is public and the digest unkeyed, so anyone can
/// produce a "signature" for any identity. Within the model, where parties
/// are honest about their own identity, it binds a statement to its signer
/// deterministically, so verification can be replayed by any third party;
/// it offers no cryptographic protection outside that model.
pub open spec fn spec_sign(signer: u64, digest_value: u64) -> u64 {
    spec_digest(enc_u64(signer) + enc_u64(digest_value))
}

/// Signs pre-hash digests under an identity.
#[derive(Debug, Clone, Copy, PartialEq, Eq, Structural)]
pub struct Signer {
    pub id: u64,
}

impl Signer {
    /// A signer for the given identity.
    pub fn new(id: u64) -> (r: Self)
        ensures
            r.id == id,
    {
        Signer { id }
    }

    /// The identity that signatures of this signer verify under; it also
    /// serves as the party's identifier.
    pub fn verifying_key(&self) -> (r: u64)
        ensures
            r == self.id,
    {
        self.id
    }

    /// Signs a pre-hash digest.
    pub fn sign_digest(&self, digest_value: u64) -> (r: u64)
        ensures
            r == spec_sign(self.id, digest_value),
    {
        let mut buf: Vec<u8> = Vec::new();
        write_u64(&mut buf, self.id);
        write_u64(&mut buf, digest_value);
        digest(&buf)
    }
}

/// Checks a signature over a pre-hash digest against an identity.
pub fn verify_signature(verifier_id: u64, digest_value: u64, signature: u64) -> (r: bool)
    ensures
        r == (signature == spec_sign(verifier_id, digest_value)),
{
    let mut buf: Vec<u8> = Vec::new();
    write_u64(&mut buf, verifier_id);
    write_u64(&mut buf, digest_value);
    let expected = digest(&buf);
    signature == expected
}

/// The view of an optional payload.
pub open spec fn opt_bytes_view(o: Option<Vec<u8>>) -> Option<Seq<u8>> {
    match o {
        Some(b) => Some(b@),
        None => None,
    }
}

/// Clones an optional payload.
pub fn clone_opt_bytes(o: &Option<Vec<u8>>) -> (r: Option<Vec<u8>>)
    ensures
        opt_bytes_view(r) == opt_bytes_view(*o),
{
    match o {
        None => None,
        Some(b) => {
            let c = b.clone();
            proof {
                assert(c@ =~= b@);
            }
            Some(c)
        },
    }
}

/// Compares two optional payloads byte for byte.
pub fn opt_bytes_eq(a: &Option<Vec<u8>>, b: &Option<Vec<u8>>) -> (r: bool)
    ensures
        r == (opt_bytes_view(*a) == opt_bytes_view(*b)),
{
    match (a, b) {
        (None, None) => true,
        (Some(x), Some(y)) => {
            let n = x.len();
            if n != y.len() {
                return false;
            }
            let mut i: usize = 0;
            while i < n
                invariant
                    i <= n,
                    n == x@.len() == y@.len(),
                    forall|j: int| 0 <= j < i ==> x@[j] == y@[j],
                decreases n - i,
            {
                if x[i] != y[i] {
                    return false;
                }
                i += 1;
            }
            proof {
                assert(x@ =~= y@);
            }
            true
        },
        _ => false,
    }
}

/// A direct message part: either absent or a serialized payload.
///
/// The absent variant is first-class: it distinguishes "this round sends no
/// direct message" from "the payload failed to decode".
#[derive(Debug)]
pub struct DirectMessage {
    /// The serialized payload, or nothing.
    pub payload: Option<Vec<u8>>,
}

/// An echo-broadcast part: either absent or a serialized payload. Its
/// consistency across receivers is cross-checked by the echo round.
#[derive(Debug)]
pub struct EchoBroadcast {
    /// The serialized payload, or nothing.
    pub payload: Option<Vec<u8>>,
}

/// A normal-broadcast part: either absent or a serialized payload, delivered
/// without any cross-check.
#[derive(Debug)]
pub struct NormalBroadcast {
    /// The serialized payload, or nothing.
    pub payload: Option<Vec<u8>>,
}

impl View for DirectMessage {
    type V = Option<Seq<u8>>;

    open spec fn view(&self) -> Option<Seq<u8>> {
        opt_bytes_view(self.payload)
    }
}

impl View for EchoBroadcast {
    type V = Option<Seq<u8>>;

    open spec fn view(&self) -> Option<Seq<u8>> {
        opt_bytes_view(self.payload)
    }
}

impl View for NormalBroadcast {
    type V = Option<Seq<u8>>;

    open spec fn view(&self) -> Option<Seq<u8>> {
        opt_bytes_view(self.payload)
    }
}

impl DirectMessage {
    /// A part carrying the given serialized payload.
    pub fn new(bytes: Vec<u8>) -> (r: Self)
        ensures
            r@ == Some(bytes@),
    {
        DirectMessage { payload: Some(bytes) }
    }

    /// The absent part: this round sends no direct message.
    pub fn none() -> (r: Self)
        ensures
            r@ is None,
    {
        DirectMessage { payload: None }
    }

    /// Whether the part is absent.
    pub fn is_none(&self) -> (r: bool)
        ensures
            r == (self@ is None),
    {
        self.payload.is_none()
    }
}

impl EchoBroadcast {
    /// A part carrying the given serialized payload.
    pub fn new(bytes: Vec<u8>) -> (r: Self)
        ensures
            r@ == Some(bytes@),
    {
        EchoBroadcast { payload: Some(bytes) }
    }

    /// The absent part: this round sends no echo broadcast.
    pub fn none() -> (r: Self)
        ensures
            r@ is None,
    {
        EchoBroadcast { payload: None }
    }

    /// Whether the part is absent.
    pub fn is_none(&self) -> (r: bool)
        ensures
            r == (self@ is None),
    {
        self.payload.is_none()
    }
}

impl NormalBroadcast {
    /// A part carrying the given serialized payload.
    pub fn new(bytes: Vec<u8>) -> (r: Self)
        ensures
            r@ == Some(bytes@),
    {
        NormalBroadcast { payload: Some(bytes) }
    }

    /// The absent part: this round sends no normal broadcast.
    pub fn none() -> (r: Self)
        ensures
            r@ is None,
    {
        NormalBroadcast { payload: None }
    }

    /// Whether the part is absent.
    pub fn is_none(&self) -> (r: bool)
        ensures
            r == (self@ is None),
    {
        self.payload.is_none()
    }
}

/// The three message parts of one sender for one round, as handed to the
/// round's receive handler after authentication.
#[derive(Debug)]
pub struct ProtocolMessage {
    /// The echo-broadcast slot.
    pub echo_broadcast: EchoBroadcast,
    /// The normal-broadcast slot.
    pub normal_broadcast: NormalBroadcast,
    /// The direct-message slot.
    pub direct_message: DirectMessage,
}

/// The mathematical content of a signed message part.
pub ghost struct SignedPartView {
    /// The signed metadata.
    pub metadata: Metadata,
    /// The signed payload, or nothing.
    pub payload: Option<Seq<u8>>,
    /// The detached signature over the pre-hash.
    pub signature: u64,
}

/// Whether the part's signature verifies under the identity.
pub open spec fn part_signed_by(p: SignedPartView, signer: u64) -> bool {
    p.signature == spec_sign(signer, prehash(p.metadata, p.payload))
}

/// A message part bound to its metadata by a detached signature.
#[derive(Debug)]
pub struct SignedMessagePart {
    /// The signed metadata.
    pub metadata: Metadata,
    /// The signed payload, or nothing.
    pub payload: Option<Vec<u8>>,
    /// The detached signature over the pre-hash.
    pub signature: u64,
}

impl View for SignedMessagePart {
    type V = SignedPartView;

    open spec fn view(&self) -> SignedPartView {
        SignedPartView {
            metadata: self.metadata,
            payload: opt_bytes_view(self.payload),
            signature: self.signature,
        }
    }
}

impl Clone for SignedMessagePart {
    /// Clones the part; the clone has the same mathematical content.
    fn clone(&self) -> (r: Self)
        ensures
            r@ == self@,
    {
        SignedMessagePart {
            metadata: self.metadata,
            payload: clone_opt_bytes(&self.payload),
            signature: self.signature,
        }
    }
}

impl SignedMessagePart {
    /// Signs a payload under the given metadata.
    pub fn sign(signer: &Signer, metadata: Metadata, payload: Option<Vec<u8>>) -> (r: Self)
        ensures
            r@.metadata == metadata,
            r@.payload == opt_bytes_view(payload),
            part_signed_by(r@, signer.id),
    {
        let h = compute_prehash(&metadata, &payload);
        let signature = signer.sign_digest(h);
        SignedMessagePart { metadata, payload, signature }
    }

    /// Checks the signature against the claimed sender.
    pub fn verify(&self, from: u64) -> (r: bool)
        ensures
            r == part_signed_by(self@, from),
    {
        let h = compute_prehash(&self.metadata, &self.payload);
        verify_signature(from, h, self.signature)
    }

    /// Whether the signed payload is absent.
    pub fn is_none(&self) -> (r: bool)
        ensures
            r == (self@.payload is None),
    {
        self.payload.is_none()
    }
}

/// The encoding of a signed message part.
pub open spec fn enc_signed_part(p: SignedPartView) -> Seq<u8> {
    enc_metadata(p.metadata) + enc_opt_bytes(p.payload) + enc_u64(p.signature)
}

/// Appends the encoding of a signed message part.
pub fn write_signed_part(out: &mut Vec<u8>, p: &SignedMessagePart)
    ensures
        final(out)@ == old(out)@ + enc_signed_part(p@),
{
    write_metadata(out, &p.metadata);
    write_opt_bytes(out, &p.payload);
    write_u64(out, p.signature);
    assert(out@ =~= old(out)@ + enc_signed_part(p@));
}

/// The signed message part starting at `pos`, by the spec of the format.
pub open spec fn dec_signed_part(s: Seq<u8>, pos: int) -> Option<(SignedPartView, int)> {
    match dec_metadata(s, pos) {
        None => None,
        Some((metadata, p1)) => match dec_opt_bytes(s, p1) {
            None => None,
            Some((payload, p2)) => {
                if p2 + 8 <= s.len() {
                    Some(
                        (
                            SignedPartView {
                                metadata,
                                payload,
                                signature: crate::codec::u64_of_bytes(s.subrange(p2, p2 + 8)),
                            },
                            p2 + 8,
                        ),
                    )
                } else {
                    None
                }
            },
        },
    }
}

/// Reads the signed message part at `pos`.
pub fn read_signed_part(bytes: &Vec<u8>, pos: usize) -> (r: Option<(SignedMessagePart, usize)>)
    ensures
        match r {
            Some((p, next)) => dec_signed_part(bytes@, pos as int) == Some((p@, next as int)),
            None => dec_signed_part(bytes@, pos as int) is None,
        },
{
    let (metadata, p1) = match read_metadata(bytes, pos) {
        Some(v) => v,
        None => {
            return None;
        },
    };
    let (payload, p2) = match read_opt_bytes(bytes, p1) {
        Some(v) => v,
        None => {
            return None;
        },
    };
    let (signature, p3) = match read_u64(bytes, p2) {
        Some(v) => v,
        None => {
            return None;
        },
    };
    Some((SignedMessagePart { metadata, payload, signature }, p3))
}

/// Decoding a signed message part undoes the encoding.
pub proof fn lemma_signed_part_round_trip(s: Seq<u8>, pos: int, p: SignedPartView)
    requires
        0 <= pos,
        pos + enc_signed_part(p).len() <= s.len(),
        (match p.payload {
            Some(b) => b.len() < 0x1_0000_0000_0000_0000,
            None => true,
        }),
        s.subrange(pos, pos + enc_signed_part(p).len()) == enc_signed_part(p),
    ensures
        dec_signed_part(s, pos) == Some((p, pos + enc_signed_part(p).len())),
{
    let em = enc_metadata(p.metadata);
    let eo = enc_opt_bytes(p.payload);
    let es = enc_u64(p.signature);
    let e = enc_signed_part(p);
    assert(s.subrange(pos, pos + em.len()) =~= e.subrange(0, em.len() as int));
    assert(e.subrange(0, em.len() as int) =~= em);
    lemma_metadata_round_trip(s, pos, p.metadata);
    let p1 = pos + em.len();
    assert(s.subrange(p1, p1 + eo.len()) =~= e.subrange(em.len() as int, (em.len() + eo.len()) as int));
    assert(e.subrange(em.len() as int, (em.len() + eo.len()) as int) =~= eo);
    lemma_opt_bytes_round_trip(s, p1, p.payload);
    let p2 = p1 + eo.len();
    lemma_u64_round_trip(p.signature);
    assert(s.subrange(p2, p2 + 8) =~= e.subrange((em.len() + eo.len()) as int, e.len() as int));
    assert(e.subrange((em.len() + eo.len()) as int, e.len() as int) =~= es);
}

/// The metadata of an echo-broadcast part of the given round.
pub open spec fn echo_part_meta(session_id: SessionId, round_id: RoundId) -> Metadata {
    Metadata { session_id, round_id, kind: PartKind::EchoBroadcast, destination: None }
}

/// The metadata of a normal-broadcast part of the given round.
pub open spec fn normal_part_meta(session_id: SessionId, round_id: RoundId) -> Metadata {
    Metadata { session_id, round_id, kind: PartKind::NormalBroadcast, destination: None }
}

/// The metadata of a direct-message part of the given round for the given
/// destination.
pub open spec fn direct_part_meta(session_id: SessionId, round_id: RoundId, dest: u64) -> Metadata {
    Metadata { session_id, round_id, kind: PartKind::DirectMessage, destination: Some(dest) }
}

/// The mathematical content of a bundled message.
pub ghost struct MessageView {
    /// The direct-message slot.
    pub direct_message: SignedPartView,
    /// The echo-broadcast slot.
    pub echo_broadcast: SignedPartView,
    /// The normal-broadcast slot.
    pub normal_broadcast: SignedPartView,
}

/// The complete outgoing bundle for one destination in one round: one signed
/// part per slot, absent slots included.
#[derive(Debug)]
pub struct Message {
    /// The direct-message slot.
    pub direct_message: SignedMessagePart,
    /// The echo-broadcast slot.
    pub echo_broadcast: SignedMessagePart,
    /// The normal-broadcast slot.
    pub normal_broadcast: SignedMessagePart,
}

impl View for Message {
    type V = MessageView;

    open spec fn view(&self) -> MessageView {
        MessageView {
            direct_message: self.direct_message@,
            echo_broadcast: self.echo_broadcast@,
            normal_broadcast: self.normal_broadcast@,
        }
    }
}

/// Whether the bundle's metadata is coherent for a receiver `me`: all three
/// slots carry the same session and round, each slot carries its own kind,
/// and only the direct message names a destination, which is `me`.
pub open spec fn message_metadata_coherent(m: MessageView, me: u64) -> bool {
    &&& m.direct_message.metadata.kind == PartKind::DirectMessage
    &&& m.echo_broadcast.metadata.kind == PartKind::EchoBroadcast
    &&& m.normal_broadcast.metadata.kind == PartKind::NormalBroadcast
    &&& m.direct_message.metadata.destination == Some(me)
    &&& m.echo_broadcast.metadata.destination is None
    &&& m.normal_broadcast.metadata.destination is None
    &&& m.echo_broadcast.metadata.session_id == m.direct_message.metadata.session_id
    &&& m.normal_broadcast.metadata.session_id == m.direct_message.metadata.session_id
    &&& m.echo_broadcast.metadata.round_id == m.direct_message.metadata.round_id
    &&& m.normal_broadcast.metadata.round_id == m.direct_message.metadata.round_id
}

/// Whether all three slots of the bundle are signed by `from`.
pub open spec fn message_signed_by(m: MessageView, from: u64) -> bool {
    &&& part_signed_by(m.direct_message, from)
    &&& part_signed_by(m.echo_broadcast, from)
    &&& part_signed_by(m.normal_broadcast, from)
}

impl Message {
    /// Checks the coherence of the bundle's metadata for receiver `me` and
    /// hands back the shared session and round on success.
    pub fn unify_metadata(&self, me: u64) -> (r: Option<(SessionId, RoundId)>)
        ensures
            match r {
                Some((session_id, round_id)) => message_metadata_coherent(self@, me)
                    && session_id == self@.direct_message.metadata.session_id && round_id
                    == self@.direct_message.metadata.round_id,
                None => !message_metadata_coherent(self@, me),
            },
    {
        let dm = &self.direct_message.metadata;
        let eb = &self.echo_broadcast.metadata;
        let nb = &self.normal_broadcast.metadata;
        let kinds_ok = matches!(dm.kind, PartKind::DirectMessage) && matches!(
            eb.kind,
            PartKind::EchoBroadcast,
        ) && matches!(nb.kind, PartKind::NormalBroadcast);
        let dest_ok = match dm.destination {
            Some(d) => d == me,
            None => false,
        } && eb.destination.is_none() && nb.destination.is_none();
        let shared_ok = eb.session_id == dm.session_id && nb.session_id == dm.session_id
            && eb.round_id == dm.round_id && nb.round_id == dm.round_id;
        if kinds_ok && dest_ok && shared_ok {
            Some((dm.session_id, dm.round_id))
        } else {
            None
        }
    }
}

/// A bundled message whose three signatures have been checked against its
/// sender, together with that sender.
#[derive(Debug)]
pub struct VerifiedMessage {
    /// The authenticated sender.
    pub from: u64,
    /// The direct-message slot.
    pub direct_message: SignedMessagePart,
    /// The echo-broadcast slot.
    pub echo_broadcast: SignedMessagePart,
    /// The normal-broadcast slot.
    pub normal_broadcast: SignedMessagePart,
}

impl View for VerifiedMessage {
    type V = MessageView;

    open spec fn view(&self) -> MessageView {
        MessageView {
            direct_message: self.direct_message@,
            echo_broadcast: self.echo_broadcast@,
            normal_broadcast: self.normal_broadcast@,
        }
    }
}

impl Clone for VerifiedMessage {
    /// Clones the message; the clone has the same sender and mathematical
    /// content.
    fn clone(&self) -> (r: Self)
        ensures
            r@ == self@,
            r.from == self.from,
    {
        VerifiedMessage {
            from: self.from,
            direct_message: self.direct_message.clone(),
            echo_broadcast: self.echo_broadcast.clone(),
            normal_broadcast: self.normal_broadcast.clone(),
        }
    }
}

impl VerifiedMessage {
    /// The authenticated sender.
    pub fn from(&self) -> (r: u64)
        ensures
            r == self.from,
    {
        self.from
    }

    /// The round the bundle belongs to.
    pub fn round_id(&self) -> (r: RoundId)
        ensures
            r == self@.direct_message.metadata.round_id,
    {
        self.direct_message.metadata.round_id
    }
}

} // verus!
