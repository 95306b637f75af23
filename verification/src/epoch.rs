//! Halving epochs: the subsidy schedule, the table of starting ordinals,
//! and conversions from heights and ordinals to epochs.

use vstd::prelude::*;

use crate::COIN_VALUE;
use crate::Height;
use crate::Ordinal;

verus! {

/// The halving interval: the number of blocks in every epoch.
pub const BLOCKS: u64 = 210000;

/// The block reward of epoch 0, in base monetary units (50 whole coins).
pub const INITIAL_SUBSIDY: u64 = 50 * COIN_VALUE;

/// A halving period index. The block reward is constant within an epoch
/// and halves at each epoch boundary.
#[derive(Copy, Clone, PartialEq, Eq, Structural, Debug)]
pub struct Epoch(pub u64);

/// The block reward of the epoch with the given index: the initial subsidy
/// halved once per completed epoch, and zero once the halving exponent
/// reaches the width of the representation.
pub open spec fn spec_subsidy(index: u64) -> u64 {
    if index < 64 {
        INITIAL_SUBSIDY >> index
    } else {
        0u64
    }
}

/// The reward halves at each epoch boundary: every epoch's subsidy is
/// half the previous epoch's, rounding down.
pub proof fn lemma_subsidy_halves(index: u64)
    requires
        index < u64::MAX,
    ensures
        spec_subsidy((index + 1) as u64) == spec_subsidy(index) / 2,
{
    if index < 63 {
        vstd::bits::lemma_u64_shr_is_div(INITIAL_SUBSIDY, index);
        vstd::bits::lemma_u64_shr_is_div(INITIAL_SUBSIDY, (index + 1) as u64);
        vstd::arithmetic::power2::lemma_pow2_pos(index as nat);
        vstd::arithmetic::power2::lemma2_to64();
        vstd::arithmetic::power2::lemma_pow2_adds(index as nat, 1);
        vstd::arithmetic::div_mod::lemma_div_denominator(
            INITIAL_SUBSIDY as int,
            vstd::arithmetic::power2::pow2(index as nat) as int,
            2,
        );
    } else if index == 63 {
        vstd::bits::lemma_u64_shr_is_div(INITIAL_SUBSIDY, 63);
        vstd::arithmetic::power2::lemma2_to64_rest();
    }
}

/// The starting ordinal of the epoch with index `i`, for `i` in 0..33:
/// the ordinal of the first unit issued within that epoch. The entries are
/// the canonical historical constants; epochs beyond index 32 issue no
/// units, so no further entries exist.
pub open spec fn starting_ordinal_at(i: int) -> u64 {
    if i == 0 {
        0
    } else if i == 1 {
        1050000000000000
    } else if i == 2 {
        1575000000000000
    } else if i == 3 {
        1837500000000000
    } else if i == 4 {
        1968750000000000
    } else if i == 5 {
        2034375000000000
    } else if i == 6 {
        2067187500000000
    } else if i == 7 {
        2083593750000000
    } else if i == 8 {
        2091796875000000
    } else if i == 9 {
        2095898437500000
    } else if i == 10 {
        2097949218750000
    } else if i == 11 {
        2098974609270000
    } else if i == 12 {
        2099487304530000
    } else if i == 13 {
        2099743652160000
    } else if i == 14 {
        2099871825870000
    } else if i == 15 {
        2099935912620000
    } else if i == 16 {
        2099967955890000
    } else if i == 17 {
        2099983977420000
    } else if i == 18 {
        2099991988080000
    } else if i == 19 {
        2099995993410000
    } else if i == 20 {
        2099997995970000
    } else if i == 21 {
        2099998997250000
    } else if i == 22 {
        2099999497890000
    } else if i == 23 {
        2099999748210000
    } else if i == 24 {
        2099999873370000
    } else if i == 25 {
        2099999935950000
    } else if i == 26 {
        2099999967240000
    } else if i == 27 {
        2099999982780000
    } else if i == 28 {
        2099999990550000
    } else if i == 29 {
        2099999994330000
    } else if i == 30 {
        2099999996220000
    } else if i == 31 {
        2099999997060000
    } else if i == 32 {
        2099999997480000
    } else {
        0
    }
}

/// The table of starting ordinals: an ascending sequence with one entry
/// per epoch that issues units, entry `i` being the ordinal at which
/// epoch `i` begins.
pub open spec fn starting_ordinals() -> Seq<u64> {
    Seq::new(33, |i: int| starting_ordinal_at(i))
}

/// The table entry at index `i`, as an executable value.
fn table_entry(i: usize) -> (r: u64)
    requires
        i < 33,
    ensures
        r == starting_ordinals()[i as int],
{
    match i {
        0 => 0,
        1 => 1050000000000000,
        2 => 1575000000000000,
        3 => 1837500000000000,
        4 => 1968750000000000,
        5 => 2034375000000000,
        6 => 2067187500000000,
        7 => 2083593750000000,
        8 => 2091796875000000,
        9 => 2095898437500000,
        10 => 2097949218750000,
        11 => 2098974609270000,
        12 => 2099487304530000,
        13 => 2099743652160000,
        14 => 2099871825870000,
        15 => 2099935912620000,
        16 => 2099967955890000,
        17 => 2099983977420000,
        18 => 2099991988080000,
        19 => 2099995993410000,
        20 => 2099997995970000,
        21 => 2099998997250000,
        22 => 2099999497890000,
        23 => 2099999748210000,
        24 => 2099999873370000,
        25 => 2099999935950000,
        26 => 2099999967240000,
        27 => 2099999982780000,
        28 => 2099999990550000,
        29 => 2099999994330000,
        30 => 2099999996220000,
        31 => 2099999997060000,
        _ => 2099999997480000,
    }
}

/// The index of the epoch that ordinal `v` falls into, scanning upward
/// from index `i`: the scan advances while the next epoch starts at or
/// below `v`, so it ends at the greatest index whose starting ordinal is
/// at most `v`.
pub open spec fn epoch_index_above(v: u64, i: int) -> int
    decreases 33 - i,
{
    if i + 1 < 33 && starting_ordinals()[i + 1] <= v {
        epoch_index_above(v, i + 1)
    } else {
        i
    }
}

/// The index of the epoch that ordinal `v` falls into: the greatest table
/// index whose starting ordinal is at most `v`. Every ordinal falls into
/// some epoch, since the table starts at 0.
pub open spec fn spec_epoch_of_ordinal(v: u64) -> int {
    epoch_index_above(v, 0)
}

/// The table of starting ordinals is strictly ascending.
pub proof fn lemma_table_sorted()
    ensures
        forall|i: int, j: int|
            0 <= i < j < 33 ==> starting_ordinals()[i] < starting_ordinals()[j],
{
    assert forall|i: int, j: int|
        0 <= i < j < 33 implies starting_ordinals()[i] < starting_ordinals()[j] by {
        lemma_table_increasing(i, j);
    }
}

/// Strict ascent between any two table indices, by chaining the ascent
/// between neighbours.
proof fn lemma_table_increasing(i: int, j: int)
    requires
        0 <= i < j < 33,
    ensures
        starting_ordinal_at(i) < starting_ordinal_at(j),
    decreases j - i,
{
    if i + 1 < j {
        lemma_table_increasing(i + 1, j);
    }
}

/// The greatest table index whose entry is at most `v` is the unique index
/// `e` whose entry is at most `v` while the next entry, if any, is above
/// `v`.
proof fn lemma_epoch_index_unique(v: u64, i: int, e: int)
    requires
        0 <= i <= e < 33,
        starting_ordinals()[e] <= v,
        e + 1 < 33 ==> v < starting_ordinals()[e + 1],
    ensures
        epoch_index_above(v, i) == e,
    decreases e - i,
{
    lemma_table_sorted();
    if i < e {
        lemma_epoch_index_unique(v, i + 1, e);
    }
}

/// The characterization of `spec_epoch_of_ordinal`: it is the one index
/// whose ordinal range contains `v`.
pub proof fn lemma_epoch_of_ordinal(v: u64, e: int)
    requires
        0 <= e < 33,
        starting_ordinals()[e] <= v,
        e + 1 < 33 ==> v < starting_ordinals()[e + 1],
    ensures
        spec_epoch_of_ordinal(v) == e,
{
    lemma_epoch_index_unique(v, 0, e);
}

/// The table is generated by the subsidy schedule: each tabulated epoch's
/// ordinal range has exactly the width of the halving interval times that
/// epoch's subsidy, so the next epoch starts where those units end.
pub proof fn lemma_table_from_subsidy(i: int)
    requires
        0 <= i < 32,
    ensures
        starting_ordinals()[i + 1] - starting_ordinals()[i] == BLOCKS * spec_subsidy(i as u64),
{
    vstd::bits::lemma_u64_shr_is_div(INITIAL_SUBSIDY, i as u64);
    vstd::arithmetic::power2::lemma2_to64();
    assert(spec_subsidy(i as u64) == INITIAL_SUBSIDY as nat / vstd::arithmetic::power2::pow2(
        i as nat,
    ));
    if i == 0 {
        assert(starting_ordinal_at(1) - starting_ordinal_at(0) == BLOCKS * (
        INITIAL_SUBSIDY as nat / vstd::arithmetic::power2::pow2(0)));
    } else if i == 1 {
        assert(starting_ordinal_at(2) - starting_ordinal_at(1) == BLOCKS * (
        INITIAL_SUBSIDY as nat / vstd::arithmetic::power2::pow2(1)));
    } else if i == 2 {
        assert(starting_ordinal_at(3) - starting_ordinal_at(2) == BLOCKS * (
        INITIAL_SUBSIDY as nat / vstd::arithmetic::power2::pow2(2)));
    } else if i == 3 {
        assert(starting_ordinal_at(4) - starting_ordinal_at(3) == BLOCKS * (
        INITIAL_SUBSIDY as nat / vstd::arithmetic::power2::pow2(3)));
    } else if i == 4 {
        assert(starting_ordinal_at(5) - starting_ordinal_at(4) == BLOCKS * (
        INITIAL_SUBSIDY as nat / vstd::arithmetic::power2::pow2(4)));
    } else if i == 5 {
        assert(starting_ordinal_at(6) - starting_ordinal_at(5) == BLOCKS * (
        INITIAL_SUBSIDY as nat / vstd::arithmetic::power2::pow2(5)));
    } else if i == 6 {
        assert(starting_ordinal_at(7) - starting_ordinal_at(6) == BLOCKS * (
        INITIAL_SUBSIDY as nat / vstd::arithmetic::power2::pow2(6)));
    } else if i == 7 {
        assert(starting_ordinal_at(8) - starting_ordinal_at(7) == BLOCKS * (
        INITIAL_SUBSIDY as nat / vstd::arithmetic::power2::pow2(7)));
    } else if i == 8 {
        assert(starting_ordinal_at(9) - starting_ordinal_at(8) == BLOCKS * (
        INITIAL_SUBSIDY as nat / vstd::arithmetic::power2::pow2(8)));
    } else if i == 9 {
        assert(starting_ordinal_at(10) - starting_ordinal_at(9) == BLOCKS * (
        INITIAL_SUBSIDY as nat / vstd::arithmetic::power2::pow2(9)));
    } else if i == 10 {
        assert(starting_ordinal_at(11) - starting_ordinal_at(10) == BLOCKS * (
        INITIAL_SUBSIDY as nat / vstd::arithmetic::power2::pow2(10)));
    } else if i == 11 {
        assert(starting_ordinal_at(12) - starting_ordinal_at(11) == BLOCKS * (
        INITIAL_SUBSIDY as nat / vstd::arithmetic::power2::pow2(11)));
    } else if i == 12 {
        assert(starting_ordinal_at(13) - starting_ordinal_at(12) == BLOCKS * (
        INITIAL_SUBSIDY as nat / vstd::arithmetic::power2::pow2(12)));
    } else if i == 13 {
        assert(starting_ordinal_at(14) - starting_ordinal_at(13) == BLOCKS * (
        INITIAL_SUBSIDY as nat / vstd::arithmetic::power2::pow2(13)));
    } else if i == 14 {
        assert(starting_ordinal_at(15) - starting_ordinal_at(14) == BLOCKS * (
        INITIAL_SUBSIDY as nat / vstd::arithmetic::power2::pow2(14)));
    } else if i == 15 {
        assert(starting_ordinal_at(16) - starting_ordinal_at(15) == BLOCKS * (
        INITIAL_SUBSIDY as nat / vstd::arithmetic::power2::pow2(15)));
    } else if i == 16 {
        assert(starting_ordinal_at(17) - starting_ordinal_at(16) == BLOCKS * (
        INITIAL_SUBSIDY as nat / vstd::arithmetic::power2::pow2(16)));
    } else if i == 17 {
        assert(starting_ordinal_at(18) - starting_ordinal_at(17) == BLOCKS * (
        INITIAL_SUBSIDY as nat / vstd::arithmetic::power2::pow2(17)));
    } else if i == 18 {
        assert(starting_ordinal_at(19) - starting_ordinal_at(18) == BLOCKS * (
        INITIAL_SUBSIDY as nat / vstd::arithmetic::power2::pow2(18)));
    } else if i == 19 {
        assert(starting_ordinal_at(20) - starting_ordinal_at(19) == BLOCKS * (
        INITIAL_SUBSIDY as nat / vstd::arithmetic::power2::pow2(19)));
    } else if i == 20 {
        assert(starting_ordinal_at(21) - starting_ordinal_at(20) == BLOCKS * (
        INITIAL_SUBSIDY as nat / vstd::arithmetic::power2::pow2(20)));
    } else if i == 21 {
        assert(starting_ordinal_at(22) - starting_ordinal_at(21) == BLOCKS * (
        INITIAL_SUBSIDY as nat / vstd::arithmetic::power2::pow2(21)));
    } else if i == 22 {
        assert(starting_ordinal_at(23) - starting_ordinal_at(22) == BLOCKS * (
        INITIAL_SUBSIDY as nat / vstd::arithmetic::power2::pow2(22)));
    } else if i == 23 {
        assert(starting_ordinal_at(24) - starting_ordinal_at(23) == BLOCKS * (
        INITIAL_SUBSIDY as nat / vstd::arithmetic::power2::pow2(23)));
    } else if i == 24 {
        assert(starting_ordinal_at(25) - starting_ordinal_at(24) == BLOCKS * (
        INITIAL_SUBSIDY as nat / vstd::arithmetic::power2::pow2(24)));
    } else if i == 25 {
        assert(starting_ordinal_at(26) - starting_ordinal_at(25) == BLOCKS * (
        INITIAL_SUBSIDY as nat / vstd::arithmetic::power2::pow2(25)));
    } else if i == 26 {
        assert(starting_ordinal_at(27) - starting_ordinal_at(26) == BLOCKS * (
        INITIAL_SUBSIDY as nat / vstd::arithmetic::power2::pow2(26)));
    } else if i == 27 {
        assert(starting_ordinal_at(28) - starting_ordinal_at(27) == BLOCKS * (
        INITIAL_SUBSIDY as nat / vstd::arithmetic::power2::pow2(27)));
    } else if i == 28 {
        assert(starting_ordinal_at(29) - starting_ordinal_at(28) == BLOCKS * (
        INITIAL_SUBSIDY as nat / vstd::arithmetic::power2::pow2(28)));
    } else if i == 29 {
        assert(starting_ordinal_at(30) - starting_ordinal_at(29) == BLOCKS * (
        INITIAL_SUBSIDY as nat / vstd::arithmetic::power2::pow2(29)));
    } else if i == 30 {
        assert(starting_ordinal_at(31) - starting_ordinal_at(30) == BLOCKS * (
        INITIAL_SUBSIDY as nat / vstd::arithmetic::power2::pow2(30)));
    } else if i == 31 {
        assert(starting_ordinal_at(32) - starting_ordinal_at(31) == BLOCKS * (
        INITIAL_SUBSIDY as nat / vstd::arithmetic::power2::pow2(31)));
    }
}

/// Round trip between epochs and ordinals: an epoch's starting ordinal
/// falls into that epoch, and the ordinal just below it falls into the
/// previous epoch.
pub proof fn lemma_round_trip(e: Epoch)
    requires
        e.0 < 33,
    ensures
        spec_epoch_of_ordinal(starting_ordinals()[e.0 as int]) == e.0 as int,
        e.0 > 0 ==> spec_epoch_of_ordinal((starting_ordinals()[e.0 as int] - 1) as u64) == e.0
            as int - 1,
{
    lemma_table_sorted();
    lemma_epoch_of_ordinal(starting_ordinals()[e.0 as int], e.0 as int);
    if e.0 > 0 {
        assert(starting_ordinals()[0] == 0);
        lemma_epoch_of_ordinal(
            (starting_ordinals()[e.0 as int] - 1) as u64,
            e.0 as int - 1,
        );
    }
}

impl Epoch {
    /// The block reward during this epoch, in base monetary units.
    pub fn subsidy(self) -> (r: u64)
        ensures
            r == spec_subsidy(self.0),
    {
        if self.0 < 64 {
            INITIAL_SUBSIDY >> self.0
        } else {
            0
        }
    }

    /// The ordinal at which this epoch begins, or `None` for epochs beyond
    /// the table: those issue no units, so they have no starting ordinal.
    /// `None` is distinct from the value 0, which is the legitimate
    /// starting ordinal of epoch 0.
    pub fn starting_ordinal(self) -> (r: Option<Ordinal>)
        ensures
            self.0 < 33 ==> r == Some(Ordinal(starting_ordinals()[self.0 as int])),
            self.0 >= 33 ==> r is None,
    {
        if self.0 < 33 {
            Some(Ordinal(table_entry(self.0 as usize)))
        } else {
            None
        }
    }

    /// The height at which this epoch begins: its index times the halving
    /// interval. The product must fit the height's representation.
    pub fn starting_height(self) -> (h: Height)
        requires
            self.0 * BLOCKS <= u64::MAX,
        ensures
            h.0 == self.0 * BLOCKS,
    {
        Height(self.0 * BLOCKS)
    }

    /// Whether this epoch's index equals the given raw index.
    pub fn eq_index(self, index: u64) -> (r: bool)
        ensures
            r == (self.0 == index),
    {
        self.0 == index
    }

    /// The whole table of starting ordinals, ascending, one entry per
    /// epoch that issues units.
    pub fn starting_ordinal_table() -> (v: Vec<u64>)
        ensures
            v@ == starting_ordinals(),
    {
        let mut v: Vec<u64> = Vec::new();
        let mut i: usize = 0;
        while i < 33
            invariant
                i <= 33,
                v@.len() == i,
                forall|k: int| 0 <= k < i ==> v@[k] == starting_ordinals()[k],
            decreases 33 - i,
        {
            v.push(table_entry(i));
            i += 1;
        }
        proof {
            assert(v@ =~= starting_ordinals());
        }
        v
    }

    /// The epoch whose ordinal range contains the given ordinal: the one
    /// with the greatest starting ordinal at most the given value, found
    /// by binary search over the ascending table.
    pub fn from_ordinal(ordinal: Ordinal) -> (e: Epoch)
        ensures
            e.0 < 33,
            e.0 as int == spec_epoch_of_ordinal(ordinal.0),
            starting_ordinals()[e.0 as int] <= ordinal.0,
            e.0 + 1 < 33 ==> ordinal.0 < starting_ordinals()[e.0 as int + 1],
    {
        let v = ordinal.0;
        let mut lo: usize = 0;
        let mut hi: usize = 33;
        while lo < hi
            invariant
                lo <= hi <= 33,
                forall|k: int| 0 <= k < lo ==> starting_ordinals()[k] <= v,
                forall|k: int| hi <= k < 33 ==> starting_ordinals()[k] > v,
            decreases hi - lo,
        {
            proof {
                lemma_table_sorted();
            }
            let mid = lo + (hi - lo) / 2;
            if table_entry(mid) <= v {
                lo = mid + 1;
            } else {
                hi = mid;
            }
        }
        proof {
            if lo == 0 {
                assert(starting_ordinals()[0] > v);
            }
            lemma_epoch_of_ordinal(v, lo - 1);
        }
        Epoch((lo - 1) as u64)
    }

    /// The epoch that the given height falls into: height divided by the
    /// halving interval. This is a pure arithmetic fact, defined for every
    /// height, also beyond the exhaustion of the reward table.
    pub fn from_height(height: Height) -> (e: Epoch)
        ensures
            e.0 == height.0 / BLOCKS,
    {
        Epoch(height.0 / BLOCKS)
    }
}

impl From<Ordinal> for Epoch {
    /// The epoch whose ordinal range contains the given ordinal.
    fn from(ordinal: Ordinal) -> Self {
        Epoch::from_ordinal(ordinal)
    }
}

impl vstd::std_specs::convert::FromSpecImpl<Ordinal> for Epoch {
    open spec fn obeys_from_spec() -> bool {
        true
    }

    open spec fn from_spec(ordinal: Ordinal) -> Epoch {
        Epoch(spec_epoch_of_ordinal(ordinal.0) as u64)
    }
}

impl From<Height> for Epoch {
    /// The epoch that the given height falls into: height divided by the
    /// halving interval. This is a pure arithmetic fact, defined for every
    /// height, also beyond the exhaustion of the reward table.
    fn from(height: Height) -> Self {
        Epoch(height.0 / BLOCKS)
    }
}

impl vstd::std_specs::convert::FromSpecImpl<Height> for Epoch {
    open spec fn obeys_from_spec() -> bool {
        true
    }

    open spec fn from_spec(height: Height) -> Epoch {
        Epoch(height.0 / BLOCKS)
    }
}

} // verus!
