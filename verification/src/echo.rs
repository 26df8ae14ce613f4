//! The echo-consistency sub-round: after a round whose parties
//! echo-broadcast, each party redistributes the signed broadcasts it
//! received (its "echo pack") so that everyone can cross-check that all
//! parties observed the same bytes from each sender.

use vstd::prelude::*;
use crate::codec::{enc_u64, u64_of_bytes, write_u64, read_u64, lemma_u64_round_trip};
use crate::message::{enc_signed_part, dec_signed_part, write_signed_part, read_signed_part, lemma_signed_part_round_trip, opt_bytes_eq, opt_bytes_view, part_signed_by, Metadata, NormalBroadcast, PartKind, SessionId, SignedMessagePart, SignedPartView};
use crate::round::{EchoRoundError, ReceiveError, Round, TransitionInfo};
use crate::round_id::RoundId;
use crate::utils::{distinct_keys, has_key, IdMap, IdSet};

verus! {

/// The views of a key-part sequence.
pub open spec fn part_views(s: Seq<(u64, SignedMessagePart)>) -> Seq<(u64, SignedPartView)> {
    s.map_values(|p: (u64, SignedMessagePart)| (p.0, p.1@))
}

/// Every payload in the sequence is small enough to length-prefix.
pub open spec fn pack_entries_wf(s: Seq<(u64, SignedPartView)>) -> bool {
    forall|i: int| 0 <= i < s.len() ==> (match (#[trigger] s[i]).1.payload {
        Some(b) => b.len() < 0x1_0000_0000_0000_0000,
        None => true,
    })
}

/// The encoding of the entries of an echo pack, in order.
pub open spec fn enc_pack_entries(s: Seq<(u64, SignedPartView)>) -> Seq<u8>
    decreases s.len(),
{
    if s.len() == 0 {
        Seq::empty()
    } else {
        enc_u64(s[0].0) + enc_signed_part(s[0].1) + enc_pack_entries(s.drop_first())
    }
}

/// The encoding of an echo pack: the entry count, then the entries.
pub open spec fn enc_pack(s: Seq<(u64, SignedPartView)>) -> Seq<u8> {
    enc_u64(s.len() as u64) + enc_pack_entries(s)
}

/// Appending an entry extends the encoding at the end.
pub proof fn lemma_enc_pack_entries_push(s: Seq<(u64, SignedPartView)>, e: (u64, SignedPartView))
    ensures
        enc_pack_entries(s.push(e)) == enc_pack_entries(s) + enc_u64(e.0) + enc_signed_part(e.1),
    decreases s.len(),
{
    let single = s.push(e);
    if s.len() == 0 {
        assert(single.len() == 1);
        assert(single[0] == e);
        assert(single.drop_first() =~= Seq::<(u64, SignedPartView)>::empty());
        assert(single.drop_first() == Seq::<(u64, SignedPartView)>::empty());
        assert(enc_pack_entries(single.drop_first()) == Seq::<u8>::empty());
        assert(enc_pack_entries(single) == enc_u64(e.0) + enc_signed_part(e.1)
            + enc_pack_entries(single.drop_first()));
        assert(enc_pack_entries(s) == Seq::<u8>::empty());
        assert(enc_pack_entries(s.push(e)) =~= enc_pack_entries(s) + enc_u64(e.0)
            + enc_signed_part(e.1));
    } else {
        assert(single[0] == s[0]);
        assert(single.drop_first() =~= s.drop_first().push(e));
        assert(single.drop_first() == s.drop_first().push(e));
        lemma_enc_pack_entries_push(s.drop_first(), e);
        assert(enc_pack_entries(single) == enc_u64(s[0].0) + enc_signed_part(s[0].1)
            + enc_pack_entries(single.drop_first()));
        assert(enc_pack_entries(s) == enc_u64(s[0].0) + enc_signed_part(s[0].1)
            + enc_pack_entries(s.drop_first()));
        assert(enc_pack_entries(s.push(e)) =~= enc_pack_entries(s) + enc_u64(e.0)
            + enc_signed_part(e.1));
    }
}

/// The `n` pack entries starting at `pos`, by the spec of the format.
pub open spec fn dec_pack_entries(s: Seq<u8>, pos: int, n: nat) -> Option<(
    Seq<(u64, SignedPartView)>,
    int,
)>
    decreases n,
{
    if n == 0 {
        Some((Seq::empty(), pos))
    } else {
        if pos + 8 <= s.len() {
            let key = u64_of_bytes(s.subrange(pos, pos + 8));
            match dec_signed_part(s, pos + 8) {
                None => None,
                Some((part, p2)) => match dec_pack_entries(s, p2, (n - 1) as nat) {
                    None => None,
                    Some((rest, end)) => Some((seq![(key, part)] + rest, end)),
                },
            }
        } else {
            None
        }
    }
}

/// The echo pack starting at `pos`, by the spec of the format.
pub open spec fn dec_pack(s: Seq<u8>, pos: int) -> Option<(Seq<(u64, SignedPartView)>, int)> {
    if pos + 8 <= s.len() {
        let n = u64_of_bytes(s.subrange(pos, pos + 8));
        dec_pack_entries(s, pos + 8, n as nat)
    } else {
        None
    }
}

proof fn lemma_pack_entries_round_trip(s: Seq<u8>, pos: int, entries: Seq<(u64, SignedPartView)>)
    requires
        0 <= pos,
        pack_entries_wf(entries),
        pos + enc_pack_entries(entries).len() <= s.len(),
        s.subrange(pos, pos + enc_pack_entries(entries).len()) == enc_pack_entries(entries),
    ensures
        dec_pack_entries(s, pos, entries.len()) == Some(
            (entries, pos + enc_pack_entries(entries).len()),
        ),
    decreases entries.len(),
{
    if entries.len() == 0 {
    } else {
        let e0 = entries[0];
        let ek = enc_u64(e0.0);
        let ep = enc_signed_part(e0.1);
        let rest = entries.drop_first();
        let er = enc_pack_entries(rest);
        let etot = enc_pack_entries(entries);
        assert(etot == ek + ep + er);
        assert(s.subrange(pos, pos + 8) =~= etot.subrange(0, 8));
        assert(etot.subrange(0, 8) =~= ek);
        lemma_u64_round_trip(e0.0);
        assert(s.subrange(pos + 8, pos + 8 + ep.len()) =~= etot.subrange(
            8,
            8 + ep.len() as int,
        ));
        assert(etot.subrange(8, 8 + ep.len() as int) =~= ep);
        lemma_signed_part_round_trip(s, pos + 8, e0.1);
        let p2 = pos + 8 + ep.len();
        assert(s.subrange(p2, p2 + er.len()) =~= etot.subrange(
            8 + ep.len() as int,
            etot.len() as int,
        ));
        assert(etot.subrange(8 + ep.len() as int, etot.len() as int) =~= er);
        assert(pack_entries_wf(rest)) by {
            assert(forall|i: int| 0 <= i < rest.len() ==> rest[i] == entries[i + 1]);
        }
        lemma_pack_entries_round_trip(s, p2, rest);
        assert(seq![e0] + rest =~= entries);
    }
}

/// Decoding an echo pack undoes the encoding.
pub proof fn lemma_pack_round_trip(s: Seq<u8>, pos: int, entries: Seq<(u64, SignedPartView)>)
    requires
        0 <= pos,
        pack_entries_wf(entries),
        entries.len() < 0x1_0000_0000_0000_0000,
        pos + enc_pack(entries).len() <= s.len(),
        s.subrange(pos, pos + enc_pack(entries).len()) == enc_pack(entries),
    ensures
        dec_pack(s, pos) == Some((entries, pos + enc_pack(entries).len())),
{
    let e = enc_pack(entries);
    assert(s.subrange(pos, pos + 8) =~= e.subrange(0, 8));
    assert(e.subrange(0, 8) =~= enc_u64(entries.len() as u64));
    lemma_u64_round_trip(entries.len() as u64);
    assert(s.subrange(pos + 8, pos + 8 + enc_pack_entries(entries).len()) =~= e.subrange(
        8,
        e.len() as int,
    ));
    assert(e.subrange(8, e.len() as int) =~= enc_pack_entries(entries));
    lemma_pack_entries_round_trip(s, pos + 8, entries);
}

/// Appends the encoding of an echo pack.
pub fn write_pack(out: &mut Vec<u8>, pack: &IdMap<SignedMessagePart>)
    ensures
        final(out)@ == old(out)@ + enc_pack(part_views(pack.elems())),
{
    pack.entries_facts();
    let n = pack.len();
    write_u64(out, n as u64);
    let ghost views = part_views(pack.elems());
    let mut i: usize = 0;
    while i < n
        invariant
            i <= n,
            n == pack.elems().len(),
            views == part_views(pack.elems()),
            out@ == old(out)@ + enc_u64(n as u64) + enc_pack_entries(views.take(i as int)),
        decreases n - i,
    {
        let key = pack.key_at(i);
        write_u64(out, key);
        write_signed_part(out, pack.value_at(i));
        proof {
            let e = (key, pack.elems()[i as int].1@);
            assert(views.take(i + 1) =~= views.take(i as int).push(e));
            lemma_enc_pack_entries_push(views.take(i as int), e);
            assert(out@ =~= old(out)@ + enc_u64(n as u64) + enc_pack_entries(views.take(i + 1)));
        }
        i += 1;
    }
    proof {
        assert(views.take(n as int) =~= views);
        assert(out@ =~= old(out)@ + enc_pack(views));
    }
}

/// Reads the echo pack at `pos`, refusing duplicate senders.
pub fn read_pack(bytes: &Vec<u8>, pos: usize) -> (r: Option<(IdMap<SignedMessagePart>, usize)>)
    ensures
        match r {
            Some((m, next)) => dec_pack(bytes@, pos as int) == Some(
                (part_views(m.elems()), next as int),
            ),
            None => match dec_pack(bytes@, pos as int) {
                None => true,
                Some((es, _)) => !distinct_keys(es),
            },
        },
{
    let (n64, p0) = match read_u64(bytes, pos) {
        Some(v) => v,
        None => {
            return None;
        },
    };
    let mut m: IdMap<SignedMessagePart> = IdMap::new();
    let mut p = p0;
    let mut i: u64 = 0;
    proof {
        assert(part_views(m.elems()) =~= Seq::<(u64, SignedPartView)>::empty());
        match dec_pack_entries(bytes@, p0 as int, n64 as nat) {
            None => {},
            Some((rest, end)) => {
                assert(part_views(m.elems()) + rest =~= rest);
            },
        }
    }
    while i < n64
        invariant
            i <= n64,
            dec_pack(bytes@, pos as int) == (match dec_pack_entries(
                bytes@,
                p as int,
                (n64 - i) as nat,
            ) {
                None => None::<(Seq<(u64, SignedPartView)>, int)>,
                Some((rest, end)) => Some((part_views(m.elems()) + rest, end)),
            }),
        decreases n64 - i,
    {
        m.entries_facts();
        let ghost views_before = part_views(m.elems());
        let ghost remaining: nat = (n64 - i) as nat;
        let (key, p1) = match read_u64(bytes, p) {
            Some(v) => v,
            None => {
                return None;
            },
        };
        let (part, p2) = match read_signed_part(bytes, p1) {
            Some(v) => v,
            None => {
                return None;
            },
        };
        if m.contains_key(key) {
            proof {
                match dec_pack_entries(bytes@, p2 as int, (remaining - 1) as nat) {
                    None => {},
                    Some((rest, end)) => {
                        let es = views_before + (seq![(key, part@)] + rest);
                        assert(dec_pack(bytes@, pos as int) == Some((es, end)));
                        assert(crate::utils::has_key(m.elems(), key));
                        let j = choose|j: int|
                            0 <= j < m.elems().len() && (#[trigger] m.elems()[j]).0 == key;
                        assert(views_before[j].0 == key);
                        assert(es[j].0 == key);
                        assert(es[views_before.len() as int] == (seq![(key, part@)] + rest)[0]);
                        assert(es[views_before.len() as int].0 == key);
                        assert(!distinct_keys(es));
                    },
                }
            }
            return None;
        }
        m.insert(key, part);
        p = p2;
        proof {
            assert(part_views(m.elems()) =~= views_before + seq![(key, part@)]);
            match dec_pack_entries(bytes@, p2 as int, (remaining - 1) as nat) {
                None => {},
                Some((rest, end)) => {
                    assert((views_before + (seq![(key, part@)] + rest)) =~= (part_views(m.elems())
                        + rest));
                },
            }
        }
        i += 1;
    }
    proof {
        assert(dec_pack_entries(bytes@, p as int, 0) == Some(
            (Seq::<(u64, SignedPartView)>::empty(), p as int),
        ));
        assert(part_views(m.elems()) + Seq::<(u64, SignedPartView)>::empty() =~= part_views(
            m.elems(),
        ));
    }
    Some((m, p))
}


/// Every payload held in a map of signed parts is small enough to
/// length-prefix; true of any map built from real vectors.
pub proof fn lemma_part_views_wf(s: Seq<(u64, SignedMessagePart)>)
    ensures
        pack_entries_wf(part_views(s)),
{
    broadcast use vstd::std_specs::vec::axiom_spec_len;

    let vs = part_views(s);
    assert forall|i: int| 0 <= i < vs.len() implies (match (#[trigger] vs[i]).1.payload {
        Some(b) => b.len() < 0x1_0000_0000_0000_0000,
        None => true,
    }) by {
        match s[i].1.payload {
            Some(v) => {
                assert(v.len() == v@.len());
            },
            None => {},
        }
    }
}

/// Distinct keys are preserved by taking views.
pub proof fn lemma_part_views_distinct(s: Seq<(u64, SignedMessagePart)>)
    requires
        distinct_keys(s),
    ensures
        distinct_keys(part_views(s)),
{
    let vs = part_views(s);
    assert forall|i: int, j: int| 0 <= i < j < vs.len() implies (#[trigger] vs[i]).0 != (
    #[trigger] vs[j]).0 by {
        assert(vs[i].0 == s[i].0 && vs[j].0 == s[j].0);
    }
}

/// A pack names the sender with exactly the expected broadcast: the sender
/// appears, and every entry under its name is signed by it, under the given
/// metadata, with the given payload.
pub open spec fn entry_matches(
    entries: Seq<(u64, SignedPartView)>,
    s: u64,
    meta: Metadata,
    expected_payload: Option<Seq<u8>>,
) -> bool {
    &&& has_key(entries, s)
    &&& forall|j: int| 0 <= j < entries.len() && (#[trigger] entries[j]).0 == s
        ==> part_signed_by(entries[j].1, s) && entries[j].1.metadata == meta
        && entries[j].1.payload == expected_payload
}

/// What acceptance of an echo pack means: every sender this node received
/// an echo broadcast from (the pack's own sender aside), and this node
/// itself, appears in the pack with a validly signed, byte-identical
/// broadcast.
pub open spec fn pack_consistent(
    entries: Seq<(u64, SignedPartView)>,
    echoes: Map<u64, SignedMessagePart>,
    own_id: u64,
    own_payload: Option<Seq<u8>>,
    meta: Metadata,
    from: u64,
) -> bool {
    &&& (forall|s: u64| #[trigger] echoes.dom().contains(s) && s != from ==> entry_matches(
        entries,
        s,
        meta,
        echoes[s]@.payload,
    ))
    &&& (own_id != from ==> entry_matches(entries, own_id, meta, own_payload))
}

/// Whether the pack names every sender this node expects an entry for:
/// everyone it received an echo broadcast from (the pack's sender aside),
/// and this node itself.
pub open spec fn pack_names_all(
    entries: Seq<(u64, SignedPartView)>,
    echoes: Map<u64, SignedMessagePart>,
    own_id: u64,
    from: u64,
) -> bool {
    &&& (forall|s: u64| #[trigger] echoes.dom().contains(s) && s != from ==> has_key(entries, s))
    &&& (own_id != from ==> has_key(entries, own_id))
}

/// Whether a payload fails to be a well-formed echo pack: absent, not
/// decodable, or naming some sender twice.
pub open spec fn echo_pack_invalid(payload: Option<Seq<u8>>) -> bool {
    match payload {
        None => true,
        Some(b) => match dec_pack(b, 0) {
            None => true,
            Some((es, _)) => !distinct_keys(es),
        },
    }
}

/// The echo-consistency sub-round the engine inserts after a round whose
/// parties echo-broadcast. It redistributes the signed echo broadcasts
/// received in the main round and cross-checks everyone's packs; its
/// finalization hands the main round's payloads back to the main round.
#[derive(Debug)]
pub struct EchoRound<R: Round> {
    /// The session this round runs in.
    pub session_id: SessionId,
    /// This node's identity.
    pub verifier_id: u64,
    /// The identifier of the main round whose broadcasts are cross-checked.
    pub main_round_id: RoundId,
    /// The transition information of the main round; the echo round hands
    /// over to whatever the main round would have handed over to.
    pub transition: TransitionInfo,
    /// This node's own signed echo broadcast of the main round.
    pub echo_broadcast: SignedMessagePart,
    /// The signed echo broadcasts received in the main round, by sender.
    pub echoes: IdMap<SignedMessagePart>,
    /// The parties the pack is sent to.
    pub destinations: IdSet,
    /// The parties expected to send their packs.
    pub expecting: IdSet,
    /// The main round, kept to finalize once consistency is established.
    pub main_round: R,
    /// The main round's accumulated payloads.
    pub payloads: IdMap<R::Payload>,
    /// The main round's accumulated artifacts.
    pub artifacts: IdMap<R::Artifact>,
}

impl<R: Round> EchoRound<R> {
    /// The metadata every echo broadcast of the main round is signed under.
    pub open spec fn echo_meta(&self) -> Metadata {
        Metadata {
            session_id: self.session_id,
            round_id: self.main_round_id,
            kind: PartKind::EchoBroadcast,
            destination: None,
        }
    }

    /// The stored broadcasts are the verified ones: each is signed by its
    /// sender under the main round's echo metadata.
    pub open spec fn echoes_wf(&self) -> bool {
        &&& forall|k: u64| #[trigger] self.echoes@.dom().contains(k) ==> part_signed_by(
            self.echoes@[k]@,
            k,
        ) && self.echoes@[k]@.metadata == self.echo_meta()
        &&& part_signed_by(self.echo_broadcast@, self.verifier_id)
        &&& self.echo_broadcast@.metadata == self.echo_meta()
    }

    /// The identifier of the echo round itself.
    pub fn round_id(&self) -> (r: RoundId)
        requires
            !self.main_round_id.is_echo,
        ensures
            r.round_num == self.main_round_id.round_num,
            r.is_echo,
    {
        self.main_round_id.echo()
    }

    /// Builds this node's echo pack: the normal broadcast of the echo
    /// round, carrying every signed echo broadcast received in the main
    /// round. Decoding it yields those parts exactly.
    pub fn make_normal_broadcast(&self) -> (r: NormalBroadcast)
        ensures
            r@ matches Some(b) && dec_pack(b, 0) == Some(
                (part_views(self.echoes.elems()), b.len() as int),
            ),
    {
        let mut out: Vec<u8> = Vec::new();
        write_pack(&mut out, &self.echoes);
        self.echoes.entries_facts();
        proof {
            lemma_part_views_wf(self.echoes.elems());
            assert(part_views(self.echoes.elems()).len() == self.echoes.elems().len());
            assert(out@.subrange(0, out@.len() as int) =~= out@);
            lemma_pack_round_trip(out@, 0, part_views(self.echoes.elems()));
        }
        NormalBroadcast::new(out)
    }

    /// Cross-checks one sender's entry of a received pack against the echo
    /// broadcast this node holds for that sender.
    fn check_pack_entry(
        &self,
        s: u64,
        expected: &SignedMessagePart,
        pack: &IdMap<SignedMessagePart>,
        Ghost(pack_bytes): Ghost<Seq<u8>>,
    ) -> (r: Result<(), ReceiveError>)
        requires
            part_signed_by(expected@, s),
            expected@.metadata == self.echo_meta(),
            dec_pack(pack_bytes, 0) matches Some((entries, _)) && entries == part_views(
                pack.elems(),
            ),
        ensures
            match r {
                Ok(()) => (match dec_pack(pack_bytes, 0) {
                    Some((entries, _)) => entry_matches(
                        entries,
                        s,
                        self.echo_meta(),
                        expected@.payload,
                    ),
                    None => false,
                }),
                Err(e) => match e {
                    ReceiveError::Echo(err) => echo_error_valid(
                        err,
                        self.echo_meta(),
                        pack_bytes,
                    ),
                    ReceiveError::Unprovable(_) => (match dec_pack(pack_bytes, 0) {
                        Some((entries, _)) => !has_key(entries, s),
                        None => false,
                    }),
                    _ => false,
                },
            },
            (match dec_pack(pack_bytes, 0) {
                Some((entries, _)) => entry_matches(entries, s, self.echo_meta(), expected@.payload),
                None => false,
            }) ==> r is Ok,
    {
        pack.entries_facts();
        let entry = match pack.get(s) {
            Some(entry) => entry,
            None => {
                return Err(
                    ReceiveError::Unprovable(
                        crate::errors::RemoteError::new(
                            "the echo pack does not name an expected sender".to_owned(),
                        ),
                    ),
                );
            },
        };
        let ghost entries = part_views(pack.elems());
        proof {
            assert(has_key(pack.elems(), s));
            let j = choose|j: int| 0 <= j < pack.elems().len() && (#[trigger] pack.elems()[j]).0
                == s;
            assert(pack.elems()[j].1 == pack@[s]);
            assert(entries[j] == (s, pack@[s]@));
        }
        let meta_ok = entry.metadata.session_id == self.session_id && entry.metadata.round_id
            == self.main_round_id && matches!(entry.metadata.kind, PartKind::EchoBroadcast)
            && entry.metadata.destination.is_none();
        if !entry.verify(s) || !meta_ok {
            proof {
                let j = choose|j: int| 0 <= j < pack.elems().len() && (
                #[trigger] pack.elems()[j]).0 == s;
                assert forall|j2: int|
                    0 <= j2 < entries.len() && (#[trigger] entries[j2]).0 == s implies !(
                part_signed_by(entries[j2].1, s) && entries[j2].1.metadata == self.echo_meta()) by {
                    assert(pack.elems()[j2].0 == s);
                    assert(distinct_keys(pack.elems()));
                    assert(j2 == j);
                }
                assert(has_key(entries, s)) by {
                    assert(entries[j].0 == s);
                }
            }
            return Err(ReceiveError::Echo(EchoRoundError::InvalidEcho(s)));
        }
        if !opt_bytes_eq(&entry.payload, &expected.payload) {
            return Err(
                ReceiveError::Echo(
                    EchoRoundError::MismatchedBroadcasts {
                        guilty_party: s,
                        we_received: expected.clone(),
                        echoed_to_us: entry.clone(),
                    },
                ),
            );
        }
        proof {
            let j = choose|j: int| 0 <= j < pack.elems().len() && (#[trigger] pack.elems()[j]).0
                == s;
            assert(distinct_keys(pack.elems()));
            assert forall|j2: int|
                0 <= j2 < entries.len() && (#[trigger] entries[j2]).0 == s implies part_signed_by(
                entries[j2].1,
                s,
            ) && entries[j2].1.metadata == self.echo_meta() && entries[j2].1.payload
                == expected@.payload by {
                assert(pack.elems()[j2].0 == s);
                assert(j2 == j);
            }
            assert(has_key(entries, s)) by {
                assert(entries[j].0 == s);
            }
        }
        Ok(())
    }

    /// Cross-checks a received echo pack: every sender this node holds an
    /// echo broadcast for, and this node itself, must appear in the pack
    /// with a validly signed, byte-identical broadcast.
    pub fn receive_echo(&self, from: u64, pack_payload: &Option<Vec<u8>>) -> (r: Result<
        (),
        ReceiveError,
    >)
        requires
            self.echoes_wf(),
        ensures
            match r {
                Ok(()) => (match opt_bytes_view(*pack_payload) {
                    Some(b) => match dec_pack(b, 0) {
                        Some((entries, _)) => pack_consistent(
                            entries,
                            self.echoes@,
                            self.verifier_id,
                            self.echo_broadcast@.payload,
                            self.echo_meta(),
                            from,
                        ),
                        None => false,
                    },
                    None => false,
                }),
                Err(e) => match e {
                    ReceiveError::InvalidNormalBroadcast(_) => echo_pack_invalid(
                        opt_bytes_view(*pack_payload),
                    ),
                    ReceiveError::Echo(err) => echo_error_valid(
                        err,
                        self.echo_meta(),
                        (match opt_bytes_view(*pack_payload) {
                            Some(b) => b,
                            None => Seq::empty(),
                        }),
                    ),
                    ReceiveError::Unprovable(_) => (match opt_bytes_view(*pack_payload) {
                        Some(b) => match dec_pack(b, 0) {
                            Some((entries, _)) => !pack_names_all(
                                entries,
                                self.echoes@,
                                self.verifier_id,
                                from,
                            ),
                            None => false,
                        },
                        None => false,
                    }),
                    _ => false,
                },
            },
            // A pack that names every expected sender consistently is
            // accepted.
            (match opt_bytes_view(*pack_payload) {
                Some(b) => match dec_pack(b, 0) {
                    Some((entries, _)) => distinct_keys(entries) && pack_consistent(
                        entries,
                        self.echoes@,
                        self.verifier_id,
                        self.echo_broadcast@.payload,
                        self.echo_meta(),
                        from,
                    ),
                    None => false,
                },
                None => false,
            }) ==> r is Ok,
    {
        let bytes = match pack_payload {
            Some(b) => b,
            None => {
                return Err(
                    ReceiveError::InvalidNormalBroadcast(
                        "the echo round requires a normal broadcast".to_owned(),
                    ),
                );
            },
        };
        let (pack, _end) = match read_pack(bytes, 0) {
            Some(v) => v,
            None => {
                return Err(
                    ReceiveError::InvalidNormalBroadcast(
                        "the echo pack cannot be decoded".to_owned(),
                    ),
                );
            },
        };
        self.echoes.entries_facts();
        let ghost entries = match dec_pack(bytes@, 0) {
            Some((entries, _)) => entries,
            None => Seq::empty(),
        };
        let n = self.echoes.len();
        let mut i: usize = 0;
        while i < n
            invariant
                i <= n,
                n == self.echoes.elems().len(),
                dec_pack(bytes@, 0) matches Some((es, _)) && es == part_views(pack.elems())
                    && es == entries,
                forall|j: int| 0 <= j < i && (#[trigger] self.echoes.elems()[j]).0 != from
                    ==> entry_matches(
                    entries,
                    self.echoes.elems()[j].0,
                    self.echo_meta(),
                    self.echoes.elems()[j].1@.payload,
                ),
            decreases n - i,
        {
            let s = self.echoes.key_at(i);
            if s != from {
                let expected = self.echoes.value_at(i);
                proof {
                    assert(self.echoes@.contains_pair(s, *expected));
                }
                match self.check_pack_entry(s, expected, &pack, Ghost(bytes@)) {
                    Ok(()) => {},
                    Err(e) => {
                        return Err(e);
                    },
                }
            }
            i += 1;
        }
        if self.verifier_id != from {
            match self.check_pack_entry(self.verifier_id, &self.echo_broadcast, &pack, Ghost(bytes@)) {
                Ok(()) => {},
                Err(e) => {
                    return Err(e);
                },
            }
        }
        proof {
            assert forall|s: u64| #[trigger] self.echoes@.dom().contains(s) && s != from
                implies entry_matches(
                entries,
                s,
                self.echo_meta(),
                self.echoes@[s]@.payload,
            ) by {
                assert(has_key(self.echoes.elems(), s));
                let j = choose|j: int|
                    0 <= j < self.echoes.elems().len() && (#[trigger] self.echoes.elems()[j]).0
                        == s;
                assert(self.echoes@.contains_pair(s, self.echoes.elems()[j].1));
            }
        }
        Ok(())
    }
}

/// What holds of an echo-round error the engine raises, stated over the
/// expected echo metadata and the received pack bytes; evidence built from
/// such an error verifies.
pub open spec fn echo_error_valid(err: EchoRoundError, echo_meta: Metadata, pack_bytes: Seq<u8>)
    -> bool {
    match err {
        EchoRoundError::InvalidEcho(s) => match dec_pack(pack_bytes, 0) {
            Some((entries, _)) => {
                &&& distinct_keys_of_parts(entries)
                &&& has_key(entries, s)
                &&& forall|j: int| 0 <= j < entries.len() && (#[trigger] entries[j]).0 == s
                    ==> !(part_signed_by(entries[j].1, s) && entries[j].1.metadata == echo_meta)
            },
            None => false,
        },
        EchoRoundError::MismatchedBroadcasts { guilty_party, we_received, echoed_to_us } => {
            &&& part_signed_by(we_received@, guilty_party)
            &&& part_signed_by(echoed_to_us@, guilty_party)
            &&& we_received@.metadata == echo_meta
            &&& echoed_to_us@.metadata == echo_meta
            &&& we_received@.payload != echoed_to_us@.payload
        },
    }
}

/// `distinct_keys` restated for the entry type of a pack.
pub open spec fn distinct_keys_of_parts(s: Seq<(u64, SignedPartView)>) -> bool {
    distinct_keys(s)
}


} // verus!
