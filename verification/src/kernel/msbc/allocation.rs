//! Loudness bit allocation: how many bits each subband gets in every block.

use vstd::prelude::*;
use super::tables::SBC_OFFSET8_SF0;

verus! {

/// Bits shared by the eight subbands of one block.
pub const MSBC_BITPOOL: i32 = 26;

/// Bits that a subband with scale factor `sf` asks for.
pub open spec fn bit_need(sf: u8, sb: int) -> int {
    if sf == 0 {
        -5
    } else {
        let loudness = sf - SBC_OFFSET8_SF0@[sb];
        if loudness > 0 {
            loudness / 2
        } else {
            loudness
        }
    }
}

/// The needs of all eight subbands.
pub open spec fn bit_needs(sf: Seq<u8>) -> Seq<int> {
    Seq::new(8, |sb: int| bit_need(sf[sb], sb))
}

/// Bits granted to a need by the water line `level`: nothing below two bits, sixteen at most.
pub open spec fn granted(need: int, level: int) -> int {
    if need < level + 2 {
        0
    } else if need - level < 16 {
        need - level
    } else {
        16
    }
}

/// Bits granted to the first `k` subbands by the water line `level`.
pub open spec fn granted_total(needs: Seq<int>, level: int, k: int) -> int
    decreases k,
{
    if k <= 0 {
        0
    } else {
        granted_total(needs, level, k - 1) + granted(needs[k - 1], level)
    }
}

/// Lowers the water line from `level` until the next step would reach the bit pool; a line that
/// meets the pool exactly is taken.
pub open spec fn water_line(needs: Seq<int>, level: int) -> int
    decreases level + 16,
{
    let next = granted_total(needs, level - 1, 8);
    if next == MSBC_BITPOOL {
        level - 1
    } else if next > MSBC_BITPOOL || level <= -16 {
        level
    } else {
        water_line(needs, level - 1)
    }
}

/// Bits of the first `k` subbands together.
pub open spec fn bits_sum(bits: Seq<u8>, k: int) -> int
    decreases k,
{
    if k <= 0 {
        0
    } else {
        bits_sum(bits, k - 1) + bits[k - 1]
    }
}

/// First hand-out of the bits left over, from subband `i` on: one more bit to each subband that
/// has some, two to each that missed the water line by one.
pub open spec fn top_up(needs: Seq<int>, level: int, bits: Seq<u8>, used: int, i: int) -> (
    Seq<u8>,
    int,
)
    decreases 8 - i,
{
    if i >= 8 || used >= MSBC_BITPOOL {
        (bits, used)
    } else if 2 <= bits[i] < 16 {
        top_up(needs, level, bits.update(i, (bits[i] + 1) as u8), used + 1, i + 1)
    } else if needs[i] == level + 1 && used + 1 < MSBC_BITPOOL {
        top_up(needs, level, bits.update(i, 2), used + 2, i + 1)
    } else {
        top_up(needs, level, bits, used, i + 1)
    }
}

/// Second hand-out, from subband `i` on: one more bit to each subband that is not full.
pub open spec fn fill_up(bits: Seq<u8>, used: int, i: int) -> (Seq<u8>, int)
    decreases 8 - i,
{
    if i >= 8 || used >= MSBC_BITPOOL {
        (bits, used)
    } else if bits[i] < 16 {
        fill_up(bits.update(i, (bits[i] + 1) as u8), used + 1, i + 1)
    } else {
        fill_up(bits, used, i + 1)
    }
}

/// The bit allocation for the scale factors `sf`.
pub open spec fn bit_allocation(sf: Seq<u8>) -> Seq<u8> {
    let needs = bit_needs(sf);
    let level = water_line(needs, 9);
    let base = Seq::new(8, |i: int| granted(needs[i], level) as u8);
    let first = top_up(needs, level, base, granted_total(needs, level, 8), 0);
    fill_up(first.0, first.1, 0).0
}

proof fn lemma_needs(sf: Seq<u8>)
    requires
        sf.len() == 8,
        forall|i: int| 0 <= i < 8 ==> sf[i] <= 15,
    ensures
        forall|i: int| 0 <= i < 8 ==> -5 <= #[trigger] bit_needs(sf)[i] <= 8,
{
    assert forall|i: int| 0 <= i < 8 implies -5 <= #[trigger] bit_needs(sf)[i] <= 8 by {
        assert(SBC_OFFSET8_SF0@[i] == (if i == 0 { -2i32 } else if i == 7 { 1i32 } else { 0i32 }));
    }
}

/// One step down of the water line adds what `calculate_bits` counts as a slice.
pub open spec fn slice_gain(need: int, level: int) -> int {
    if need > level + 1 && need < level + 16 {
        1
    } else if need == level + 1 {
        2
    } else {
        0
    }
}

pub open spec fn slice_total(needs: Seq<int>, level: int, k: int) -> int
    decreases k,
{
    if k <= 0 {
        0
    } else {
        slice_total(needs, level, k - 1) + slice_gain(needs[k - 1], level)
    }
}

proof fn lemma_slice_total(needs: Seq<int>, level: int, k: int)
    requires
        0 <= k <= 8,
    ensures
        granted_total(needs, level - 1, k) == granted_total(needs, level, k) + slice_total(
            needs,
            level,
            k,
        ),
        0 <= slice_total(needs, level, k) <= 2 * k,
        0 <= granted_total(needs, level, k) <= 16 * k,
    decreases k,
{
    if k > 0 {
        lemma_slice_total(needs, level, k - 1);
    }
}

/// A water line at or above every need grants nothing.
proof fn lemma_granted_none(needs: Seq<int>, level: int, k: int)
    requires
        0 <= k <= needs.len(),
        forall|i: int| 0 <= i < needs.len() ==> #[trigger] needs[i] <= level + 1,
    ensures
        granted_total(needs, level, k) == 0,
    decreases k,
{
    if k > 0 {
        lemma_granted_none(needs, level, k - 1);
    }
}

/// A water line far enough below every need grants more than the pool.
proof fn lemma_granted_low(needs: Seq<int>, level: int, k: int)
    requires
        0 <= k <= needs.len(),
        level <= -9,
        forall|i: int| 0 <= i < needs.len() ==> #[trigger] needs[i] >= -5,
    ensures
        granted_total(needs, level, k) >= 4 * k,
    decreases k,
{
    if k > 0 {
        lemma_granted_low(needs, level, k - 1);
    }
}

/// Starting the descent anywhere above the largest need gives the same water line.
proof fn lemma_water_line_start(needs: Seq<int>, from: int, max: int)
    requires
        needs.len() == 8,
        -5 <= max <= from,
        forall|i: int| 0 <= i < needs.len() ==> #[trigger] needs[i] <= max,
    ensures
        water_line(needs, from) == water_line(needs, max),
    decreases from - max,
{
    if from > max {
        lemma_granted_none(needs, from - 1, 8);
        lemma_water_line_start(needs, from - 1, max);
    }
}

proof fn lemma_bits_sum_update(bits: Seq<u8>, i: int, x: u8, k: int)
    requires
        0 <= i < bits.len(),
        0 <= k <= bits.len(),
    ensures
        bits_sum(bits.update(i, x), k) == bits_sum(bits, k) + (if i < k {
            x - bits[i]
        } else {
            0
        }),
    decreases k,
{
    if k > 0 {
        lemma_bits_sum_update(bits, i, x, k - 1);
    }
}

proof fn lemma_base_sum(needs: Seq<int>, level: int, k: int)
    requires
        0 <= k <= 8,
    ensures
        bits_sum(Seq::new(8, |i: int| granted(needs[i], level) as u8), k) == granted_total(
            needs,
            level,
            k,
        ),
    decreases k,
{
    if k > 0 {
        lemma_base_sum(needs, level, k - 1);
    }
}

/// A prefix sum of bit counts never decreases.
pub proof fn lemma_bits_sum_monotone(bits: Seq<u8>, j: int, k: int)
    requires
        0 <= j <= k <= bits.len(),
    ensures
        0 <= bits_sum(bits, j) <= bits_sum(bits, k),
    decreases k,
{
    if k > 0 && j < k {
        lemma_bits_sum_monotone(bits, j, k - 1);
    } else if k > 0 {
        lemma_bits_sum_monotone(bits, k - 1, k - 1);
    }
}

/// Bit allocation for eight 4-bit scale factors. The bits of a block never exceed the bit pool,
/// and no subband gets more than sixteen.
pub fn calculate_bits(scale_factors: &[u8; 8]) -> (bits: [u8; 8])
    requires
        forall|i: int| 0 <= i < 8 ==> scale_factors@[i] <= 15,
    ensures
        bits@ == bit_allocation(scale_factors@),
        bits_sum(bits@, 8) <= MSBC_BITPOOL,
        forall|i: int| 0 <= i < 8 ==> bits@[i] <= 16,
{
    let mut need: [i32; 8] = [0; 8];
    let mut max_need: i32 = 0;
    let ghost needs = bit_needs(scale_factors@);
    proof {
        lemma_needs(scale_factors@);
    }
    let mut sb: usize = 0;
    while sb < 8
        invariant
            sb <= 8,
            needs == bit_needs(scale_factors@),
            forall|i: int| 0 <= i < 8 ==> scale_factors@[i] <= 15,
            forall|i: int| 0 <= i < 8 ==> -5 <= #[trigger] needs[i] <= 8,
            0 <= max_need <= 8,
            forall|i: int| 0 <= i < sb ==> #[trigger] need@[i] == needs[i] && needs[i] <= max_need,
        decreases 8 - sb,
    {
        let sf: i32 = scale_factors[sb] as i32;
        assert(needs[sb as int] == bit_need(scale_factors@[sb as int], sb as int));
        if sf == 0 {
            need[sb] = -5;
        } else {
            assert(SBC_OFFSET8_SF0@[sb as int] == (if sb == 0 { -2i32 } else if sb == 7 { 1i32 } else { 0i32 }));
            let loudness: i32 = sf - SBC_OFFSET8_SF0[sb];
            need[sb] = if loudness > 0 { loudness / 2 } else { loudness };
        }
        if need[sb] > max_need {
            max_need = need[sb];
        }
        sb = sb + 1;
    }
    assert(forall|i: int| 0 <= i < 8 ==> #[trigger] needs[i] == need@[i]);
    let mut used: i32 = 0;
    let mut slice: i32 = 0;
    let mut level: i32 = max_need + 1;
    proof {
        lemma_granted_none(needs, level as int, 8);
        lemma_granted_none(needs, level - 1, 8);
        lemma_water_line_start(needs, 9, max_need as int);
    }
    loop
        invariant_except_break
            used + slice < MSBC_BITPOOL,
            slice == granted_total(needs, level - 1, 8) - granted_total(needs, level as int, 8),
            water_line(needs, level - 1) == water_line(needs, 9),
        invariant
            needs.len() == 8,
            forall|i: int| 0 <= i < 8 ==> #[trigger] needs[i] == need@[i] && -5 <= needs[i] <= 8,
            -8 <= level <= 9,
            used == granted_total(needs, level as int, 8),
            0 <= slice,
            0 <= used < MSBC_BITPOOL,
        ensures
            used + slice >= MSBC_BITPOOL,
            used + slice == granted_total(needs, level - 1, 8),
            slice <= 16,
            water_line(needs, 9) == (if used + slice == MSBC_BITPOOL { level - 1 } else { level as int }),
        decreases level + 16,
    {
        proof {
            if level <= -8 {
                lemma_granted_low(needs, level - 1, 8);
            }
        }
        level = level - 1;
        used = used + slice;
        slice = 0;
        let mut sb: usize = 0;
        while sb < 8
            invariant
                sb <= 8,
                -9 <= level <= 9,
                needs.len() == 8,
                forall|i: int| 0 <= i < 8 ==> #[trigger] needs[i] == need@[i] && -5 <= needs[i] <= 8,
                slice == slice_total(needs, level as int, sb as int),
                0 <= slice <= 2 * sb,
            decreases 8 - sb,
        {
            let n: i32 = need[sb];
            assert(needs[sb as int] == n);
            if n > level + 1 && n < level + 16 {
                slice = slice + 1;
            } else if n == level + 1 {
                slice = slice + 2;
            }
            sb = sb + 1;
        }
        proof {
            lemma_slice_total(needs, level as int, 8);
        }
        if used + slice >= MSBC_BITPOOL {
            break;
        }
        proof {
            if level <= -8 {
                lemma_granted_low(needs, level - 1, 8);
            }
        }
    }
    if used + slice == MSBC_BITPOOL {
        used = used + slice;
        level = level - 1;
    }
    let ghost base = Seq::new(8, |i: int| granted(needs[i], level as int) as u8);
    let mut bits: [u8; 8] = [0; 8];
    let mut sb: usize = 0;
    while sb < 8
        invariant
            sb <= 8,
            -9 <= level <= 9,
            needs.len() == 8,
            forall|i: int| 0 <= i < 8 ==> #[trigger] needs[i] == need@[i] && -5 <= needs[i] <= 8,
            base == Seq::new(8, |i: int| granted(needs[i], level as int) as u8),
            forall|i: int| 0 <= i < sb ==> #[trigger] bits@[i] == base[i],
        decreases 8 - sb,
    {
        let n: i32 = need[sb];
        assert(needs[sb as int] == n);
        if n < level + 2 {
            bits[sb] = 0;
        } else if n - level < 16 {
            bits[sb] = (n - level) as u8;
        } else {
            bits[sb] = 16;
        }
        sb = sb + 1;
    }
    proof {
        assert(bits@ =~= base);
        lemma_base_sum(needs, level as int, 8);
    }
    let ghost first = top_up(needs, level as int, base, used as int, 0);
    let mut sb: usize = 0;
    while sb < 8 && used < MSBC_BITPOOL
        invariant
            sb <= 8,
            -9 <= level <= 9,
            needs.len() == 8,
            0 <= used <= MSBC_BITPOOL,
            forall|i: int| 0 <= i < 8 ==> #[trigger] needs[i] == need@[i] && -5 <= needs[i] <= 8,
            base == Seq::new(8, |i: int| granted(needs[i], level as int) as u8),
            forall|i: int| sb <= i < 8 ==> #[trigger] bits@[i] == base[i],
            forall|i: int| 0 <= i < 8 ==> #[trigger] bits@[i] <= 16,
            bits_sum(bits@, 8) == used,
            first == top_up(needs, level as int, bits@, used as int, sb as int),
        decreases 8 - sb,
    {
        let n: i32 = need[sb];
        assert(needs[sb as int] == n);
        assert(bits@[sb as int] == base[sb as int]);
        if bits[sb] >= 2 && bits[sb] < 16 {
            proof {
                lemma_bits_sum_update(bits@, sb as int, (bits@[sb as int] + 1) as u8, 8);
            }
            bits[sb] = bits[sb] + 1;
            used = used + 1;
        } else if n == level + 1 && MSBC_BITPOOL > used + 1 {
            proof {
                lemma_bits_sum_update(bits@, sb as int, 2, 8);
            }
            bits[sb] = 2;
            used = used + 2;
        }
        sb = sb + 1;
    }
    assert(first == (bits@, used as int));
    let mut sb: usize = 0;
    while sb < 8 && used < MSBC_BITPOOL
        invariant
            sb <= 8,
            0 <= used <= MSBC_BITPOOL,
            forall|i: int| 0 <= i < 8 ==> #[trigger] bits@[i] <= 16,
            bits_sum(bits@, 8) == used,
            fill_up(first.0, first.1, 0) == fill_up(bits@, used as int, sb as int),
        decreases 8 - sb,
    {
        if bits[sb] < 16 {
            proof {
                lemma_bits_sum_update(bits@, sb as int, (bits@[sb as int] + 1) as u8, 8);
            }
            bits[sb] = bits[sb] + 1;
            used = used + 1;
        }
        sb = sb + 1;
    }
    bits
}

/// A silent subband asks for less than nothing. Any other asks for half its scale factor, with two
/// more on the lowest subband and one less on the highest; below zero nothing is halved.
pub proof fn law_louder_subbands_ask_for_more(sf: Seq<u8>, sb: int)
    requires
        sf.len() == 8,
        0 <= sb < 8,
        sf[sb] <= 15,
    ensures
        ({
            let need = bit_needs(sf)[sb];
            &&& sf[sb] == 0 ==> need == -5
            &&& sf[sb] > 0 && sb == 0 ==> need == (sf[sb] + 2) / 2
            &&& sf[sb] > 0 && 0 < sb < 7 ==> need == sf[sb] / 2
            &&& sf[sb] > 0 && sb == 7 ==> need == (sf[sb] - 1) / 2
        }),
{
    assert(SBC_OFFSET8_SF0@[sb] == (if sb == 0 { -2i32 } else if sb == 7 { 1i32 } else { 0i32 }));
}

/// A water line grants what a need has above it, if that is at least two bits, and never more than
/// sixteen. A lower line grants at least as much.
pub proof fn law_a_water_line_grants_what_is_above_it(need: int, level: int)
    ensures
        granted(need, level) == 0 <==> need - level < 2,
        2 <= need - level <= 16 ==> granted(need, level) == need - level,
        need - level > 16 ==> granted(need, level) == 16,
        granted(need, level) <= granted(need, level - 1) <= granted(need, level) + 2,
{
}

/// The bits of a block always make up the whole pool of 26, no subband gets more than sixteen of
/// them, and every subband gets at least what the water line grants it.
pub proof fn law_the_pool_is_used_up(sf: Seq<u8>)
    requires
        sf.len() == 8,
        forall|i: int| 0 <= i < 8 ==> sf[i] <= 15,
    ensures
        ({
            let bits = bit_allocation(sf);
            &&& bits.len() == 8
            &&& bits[0] + bits[1] + bits[2] + bits[3] + bits[4] + bits[5] + bits[6] + bits[7] == 26
            &&& forall|i: int| 0 <= i < 8 ==> #[trigger] bits[i] <= 16
            &&& forall|i: int|
                0 <= i < 8 ==> #[trigger] bits[i] >= granted(
                    bit_needs(sf)[i],
                    water_line(bit_needs(sf), 9),
                )
        }),
{
    lemma_needs(sf);
    let needs = bit_needs(sf);
    let level = water_line(needs, 9);
    let base = Seq::new(8, |i: int| granted(needs[i], level) as u8);
    lemma_granted_none(needs, 9, 8);
    lemma_water_line(needs, 9);
    lemma_base_sum(needs, level, 8);
    lemma_slice_total(needs, level, 8);
    let used = granted_total(needs, level, 8);
    lemma_top_up(needs, level, base, used, 0);
    let first = top_up(needs, level, base, used, 0);
    lemma_fill_up(first.0, first.1, 0);
    let bits = bit_allocation(sf);
    reveal_with_fuel(bits_sum, 9);
    assert(bits_sum(bits, 8) == bits[0] + bits[1] + bits[2] + bits[3] + bits[4] + bits[5] + bits[6]
        + bits[7]);
}

/// The line grants no more than the pool, and one step lower it would grant at least the pool.
proof fn lemma_water_line(needs: Seq<int>, level: int)
    requires
        needs.len() == 8,
        forall|i: int| 0 <= i < 8 ==> -5 <= #[trigger] needs[i] <= 8,
        -16 <= level <= 9,
        granted_total(needs, level, 8) < 26,
    ensures
        ({
            let found = water_line(needs, level);
            &&& granted_total(needs, found, 8) <= 26
            &&& granted_total(needs, found - 1, 8) >= 26
        }),
    decreases level + 16,
{
    let next = granted_total(needs, level - 1, 8);
    if next == 26 {
        lemma_slice_total(needs, level - 1, 8);
    } else if level <= -8 {
        lemma_granted_low(needs, level - 1, 8);
    } else if next < 26 {
        lemma_water_line(needs, level - 1);
    }
}

proof fn lemma_top_up(needs: Seq<int>, level: int, bits: Seq<u8>, used: int, i: int)
    requires
        needs.len() == 8,
        bits.len() == 8,
        0 <= i <= 8,
        used <= 26,
        bits_sum(bits, 8) == used,
        forall|k: int| 0 <= k < 8 ==> #[trigger] bits[k] <= 16,
        forall|k: int| i <= k < 8 ==> #[trigger] bits[k] == granted(needs[k], level),
        used >= 25 || used + slice_total(needs, level, 8) - slice_total(needs, level, i) >= 26,
    ensures
        ({
            let (more, now) = top_up(needs, level, bits, used, i);
            &&& more.len() == 8
            &&& 25 <= now <= 26
            &&& bits_sum(more, 8) == now
            &&& forall|k: int| 0 <= k < 8 ==> bits[k] <= #[trigger] more[k] <= 16
        }),
    decreases 8 - i,
{
    if i < 8 && used < 26 {
        assert(bits[i] == granted(needs[i], level));
        assert(slice_total(needs, level, i + 1) == slice_total(needs, level, i) + slice_gain(
            needs[i],
            level,
        ));
        if 2 <= bits[i] < 16 {
            lemma_bits_sum_update(bits, i, (bits[i] + 1) as u8, 8);
            lemma_top_up(needs, level, bits.update(i, (bits[i] + 1) as u8), used + 1, i + 1);
        } else if needs[i] == level + 1 && used + 1 < 26 {
            lemma_bits_sum_update(bits, i, 2, 8);
            lemma_top_up(needs, level, bits.update(i, 2), used + 2, i + 1);
        } else {
            lemma_top_up(needs, level, bits, used, i + 1);
        }
    }
}

proof fn lemma_fill_up(bits: Seq<u8>, used: int, i: int)
    requires
        bits.len() == 8,
        i == 0 || i == 1 && (used == 26 || bits[0] == 16),
        25 <= used <= 26,
        bits_sum(bits, 8) == used,
        forall|k: int| 0 <= k < 8 ==> #[trigger] bits[k] <= 16,
    ensures
        ({
            let (more, now) = fill_up(bits, used, i);
            &&& more.len() == 8
            &&& now == 26
            &&& bits_sum(more, 8) == 26
            &&& forall|k: int| 0 <= k < 8 ==> bits[k] <= #[trigger] more[k] <= 16
        }),
    decreases 8 - i,
{
    if used < 26 {
        if bits[i] < 16 {
            lemma_bits_sum_update(bits, i, (bits[i] + 1) as u8, 8);
            let more = bits.update(i, (bits[i] + 1) as u8);
            assert(fill_up(more, 26, i + 1) == (more, 26int));
        } else {
            if i == 1 {
                lemma_bits_sum_monotone(bits, 2, 8);
                reveal_with_fuel(bits_sum, 3);
                assert(false);
            }
            lemma_fill_up(bits, used, i + 1);
        }
    }
}

} // verus!
