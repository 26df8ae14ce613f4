//! The engine's cross-cutting guarantees, stated and proved once, on top of
//! the contracts of the functions they speak about.

use vstd::prelude::*;
use crate::echo::{dec_pack, part_views};
use crate::evidence::{dec_evidence, enc_evidence, evidence_valid, evidence_view_wf, lemma_evidence_round_trip, Evidence, EvidenceView};
use crate::message::{SignedMessagePart, SignedPartView};
use crate::session::quorum;
use crate::transcript::Transcript;
use crate::utils::distinct_keys;

verus! {

/// For every accepted message, exactly one payload per sender reaches the
/// round's finalize input: a payload map holds at most one entry per sender,
/// and two entries carrying the same sender are the same entry.
pub proof fn lemma_one_payload_per_sender<V>(entries: Seq<(u64, V)>, i: int, j: int)
    requires
        distinct_keys(entries),
        0 <= i < entries.len(),
        0 <= j < entries.len(),
        entries[i].0 == entries[j].0,
    ensures
        i == j,
{
}

/// Once a round can never be finalized, no quorum is reachable: every
/// expected sender already has a final outcome, so the only senders that
/// could still add payloads are the still-unsent ones, and there are none.
pub proof fn lemma_never_means_quorum_unreachable(
    expected: Set<u64>,
    payloads: Set<u64>,
    still_unsent: Set<u64>,
    additions: Set<u64>,
)
    requires
        !quorum(expected, payloads),
        still_unsent.is_empty(),
        additions.subset_of(still_unsent),
    ensures
        !quorum(expected, payloads.union(additions)),
{
    assert(payloads.union(additions) =~= payloads);
}

/// An evidence survives any number of serialize/deserialize cycles: its
/// serialized form decodes to exactly its mathematical content, so the
/// decoded copy is as conclusive as the original.
#[verifier::rlimit(100)]
#[verifier::spinoff_prover]
pub proof fn lemma_evidence_survives_round_trip(a: Evidence, b: Evidence)
    requires
        evidence_view_wf(a@),
        dec_evidence(enc_evidence(a@), 0) == Some((b@, enc_evidence(a@).len() as int)),
    ensures
        a@ == b@,
        evidence_valid(a) <==> evidence_valid(b),
{
    lemma_evidence_round_trip(a@);
    crate::evidence::lemma_validity_is_content(a, b);
}

/// Each party appears at most once in a decoded echo pack that the engine
/// accepts, so the cross-check compares one broadcast per sender.
pub proof fn lemma_pack_names_each_sender_once(
    pack: Seq<(u64, SignedPartView)>,
    bytes: Seq<u8>,
    stored: Seq<(u64, SignedMessagePart)>,
)
    requires
        distinct_keys(stored),
        dec_pack(bytes, 0) matches Some((entries, _)) && entries == part_views(stored)
            && entries == pack,
    ensures
        distinct_keys(pack),
{
    crate::echo::lemma_part_views_distinct(stored);
}

/// A banned peer stays banned: any transcript whose error records extend an
/// earlier transcript's bans every party the earlier one banned, so no later
/// round accepts a message from it.
pub proof fn lemma_bans_are_monotone(earlier: Transcript, later: Transcript, p: u64)
    requires
        earlier.provable_errors@.dom().subset_of(later.provable_errors@.dom()),
        earlier.unprovable_errors@.dom().subset_of(later.unprovable_errors@.dom()),
        earlier.is_banned_spec(p),
    ensures
        later.is_banned_spec(p),
{
}

} // verus!
