//! Identifiers for rounds and the description of a round's position in the
//! protocol's transition graph.

use vstd::prelude::*;

verus! {

/// Identifies a round within a protocol: a small round number together with
/// a flag that distinguishes the echo-consistency sub-round automatically
/// inserted after a round that echo-broadcasts.
#[derive(Debug, Clone, Copy, PartialEq, Eq, Structural, Hash)]
pub struct RoundId {
    pub round_num: u8,
    pub is_echo: bool,
}

impl RoundId {
    /// The identifier of the regular (non-echo) round with this number.
    pub fn new(round_num: u8) -> (r: Self)
        ensures
            r.round_num == round_num,
            !r.is_echo,
    {
        RoundId { round_num, is_echo: false }
    }

    /// The round number.
    pub fn round_num(&self) -> (r: u8)
        ensures
            r == self.round_num,
    {
        self.round_num
    }

    /// Whether this identifies an echo sub-round.
    pub fn is_echo(&self) -> (r: bool)
        ensures
            r == self.is_echo,
    {
        self.is_echo
    }

    /// The identifier of the echo sub-round attached to this regular round.
    pub fn echo(&self) -> (r: Self)
        requires
            !self.is_echo,
        ensures
            r.round_num == self.round_num,
            r.is_echo,
    {
        RoundId { round_num: self.round_num, is_echo: true }
    }

    /// The identifier of the regular round this echo sub-round belongs to.
    pub fn non_echo(&self) -> (r: Self)
        requires
            self.is_echo,
        ensures
            r.round_num == self.round_num,
            !r.is_echo,
    {
        RoundId { round_num: self.round_num, is_echo: false }
    }

    /// The identifier of the regular round with this number.
    pub open spec fn spec_non_echo(self) -> RoundId {
        RoundId { round_num: self.round_num, is_echo: false }
    }

    /// The key under which this round is filed in round-indexed maps.
    pub open spec fn spec_key(self) -> u64 {
        ((self.round_num as int) * 2 + if self.is_echo { 1int } else { 0int }) as u64
    }

    /// Computes the map key of this round: distinct rounds have distinct keys.
    pub fn key(&self) -> (r: u64)
        ensures
            r == self.spec_key(),
    {
        (self.round_num as u64) * 2 + if self.is_echo { 1u64 } else { 0u64 }
    }
}

impl RoundId {
    /// The round identifier filed under a key, undoing [`RoundId::key`].
    pub fn from_key(key: u64) -> (r: Option<Self>)
        ensures
            match r {
                Some(id) => id.spec_key() == key,
                None => key >= 512,
            },
    {
        if key < 512 {
            Some(RoundId { round_num: (key / 2) as u8, is_echo: key % 2 == 1 })
        } else {
            None
        }
    }
}

/// Distinct round identifiers are filed under distinct keys.
pub proof fn lemma_round_key_injective(a: RoundId, b: RoundId)
    requires
        a.spec_key() == b.spec_key(),
    ensures
        a == b,
{
}

} // verus!
