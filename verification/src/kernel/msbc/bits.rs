//! Big-endian bit reader over a byte slice.

use vstd::prelude::*;

verus! {

/// Bit `k` of `data`, counting from the most significant bit of the first byte.
pub open spec fn bit_at(data: Seq<u8>, k: int) -> nat {
    (((data[k / 8] >> ((7 - k % 8) as u8)) & 1u8) as nat)
}

/// The `n` bits of `data` that start at bit `pos`, read as one big-endian number.
pub open spec fn bits_value(data: Seq<u8>, pos: int, n: nat) -> nat
    decreases n,
{
    if n == 0 {
        0
    } else {
        2 * bits_value(data, pos, (n - 1) as nat) + bit_at(data, pos + n - 1)
    }
}

/// An `n`-bit value is below `2^n`.
pub proof fn lemma_bits_value_bound(data: Seq<u8>, pos: int, n: nat)
    requires
        n <= 16,
    ensures
        bits_value(data, pos, n) < (1u32 << (n as u32)),
        (1u32 << (n as u32)) <= 65536,
    decreases n,
{
    if n == 0 {
        assert(1u32 << 0u32 == 1) by (bit_vector);
    } else {
        lemma_bits_value_bound(data, pos, (n - 1) as nat);
        let m: u32 = n as u32;
        assert(1 <= m <= 16 ==> (1u32 << m) == 2 * (1u32 << ((m - 1) as u32)) && (1u32 << m) <= 65536)
            by (bit_vector);
        let b: u8 = data[(pos + n - 1) / 8] >> ((7 - (pos + n - 1) % 8) as u8);
        assert(b & 1u8 <= 1) by (bit_vector);
    }
}

/// `take` consecutive bits of one byte are a shift and a mask.
proof fn lemma_byte_bits(data: Seq<u8>, pos: int, take: nat)
    requires
        0 <= pos,
        pos % 8 + take <= 8,
    ensures
        bits_value(data, pos, take) == ((data[pos / 8] as u32 >> ((8 - pos % 8 - take) as u32)) & (((
        1u32 << (take as u32)) - 1) as u32)),
    decreases take,
{
    let byte: u32 = data[pos / 8] as u32;
    if take == 0 {
        let sh: u32 = (8 - pos % 8 - take) as u32;
        assert(sh <= 8 ==> (byte >> sh) & (((1u32 << 0u32) - 1) as u32) == 0) by (bit_vector);
    } else {
        lemma_byte_bits(data, pos, (take - 1) as nat);
        let last: int = pos + take - 1;
        assert(last / 8 == pos / 8 && last % 8 == pos % 8 + take - 1);
        let b8: u8 = data[pos / 8];
        let s8: u8 = (7 - last % 8) as u8;
        let sh: u32 = s8 as u32;
        let t: u32 = take as u32;
        assert(s8 <= 7 ==> ((b8 >> s8) & 1u8) as u32 == ((b8 as u32) >> (s8 as u32)) & 1u32)
            by (bit_vector);
        assert(byte < 256 && 1 <= t && t <= 8 && sh + t <= 8 ==> (byte >> sh) & (((1u32 << t)
            - 1) as u32) == 2 * ((byte >> ((sh + 1) as u32)) & (((1u32 << ((t - 1) as u32))
            - 1) as u32)) + ((byte >> sh) & 1u32)) by (bit_vector);
        assert((8 - pos % 8 - (take - 1)) as u32 == (sh + 1) as u32);
    }
}

/// Reading `a` bits and then `b` bits is reading `a + b` bits.
proof fn lemma_bits_value_concat(data: Seq<u8>, pos: int, a: nat, b: nat)
    requires
        b <= 8,
    ensures
        bits_value(data, pos, a + b) == bits_value(data, pos, a) * (1u32 << (b as u32)) + bits_value(
            data,
            pos + a,
            b,
        ),
    decreases b,
{
    if b == 0 {
        assert(1u32 << 0u32 == 1) by (bit_vector);
        let x = bits_value(data, pos, a);
        let q = (1u32 << (b as u32)) as nat;
        assert(x * q == x) by (nonlinear_arith)
            requires
                q == 1,
        ;
    } else {
        lemma_bits_value_concat(data, pos, a, (b - 1) as nat);
        let m: u32 = b as u32;
        assert(1 <= m <= 8 ==> (1u32 << m) == 2 * (1u32 << ((m - 1) as u32))) by (bit_vector);
        let x = bits_value(data, pos, a);
        let p = (1u32 << ((m - 1) as u32)) as nat;
        let q = (1u32 << m) as nat;
        assert(2 * (x * p) == x * q) by (nonlinear_arith)
            requires
                q == 2 * p,
        ;
        assert((a + b - 1) as nat == a + (b - 1) as nat);
        assert(pos + (a + b) - 1 == (pos + a) + b - 1);
    }
}

/// Reads big-endian bit fields one after another.
pub struct BitReader<'a> {
    pub data: &'a [u8],
    pub byte_pos: usize,
    pub bit_pos: u8,
}

impl<'a> BitReader<'a> {
    /// Position of the next bit.
    pub open spec fn pos(&self) -> int {
        8 * self.byte_pos + self.bit_pos
    }

    pub open spec fn inv(&self) -> bool {
        &&& self.bit_pos < 8
        &&& self.byte_pos <= self.data@.len()
        &&& self.byte_pos == self.data@.len() ==> self.bit_pos == 0
    }

    /// Starts at the first bit of `data`.
    pub fn new(data: &'a [u8]) -> (r: Self)
        ensures
            r.inv(),
            r.pos() == 0,
            r.data == data,
    {
        BitReader { data, byte_pos: 0, bit_pos: 0 }
    }

    /// Reads the next `bits` bits; fails, with the reader at the end, when fewer are left.
    pub fn read(&mut self, bits: u8) -> (r: Result<u16, ()>)
        requires
            old(self).inv(),
            bits <= 16,
        ensures
            final(self).inv(),
            final(self).data == old(self).data,
            r is Ok <==> old(self).pos() + bits <= 8 * old(self).data@.len(),
            r matches Ok(v) ==> v == bits_value(old(self).data@, old(self).pos(), bits as nat)
                && final(self).pos() == old(self).pos() + bits,
            r is Err ==> final(self).pos() == 8 * old(self).data@.len(),
    {
        let mut result: u32 = 0;
        let mut remaining: u8 = bits;
        let ghost start = self.pos();
        while remaining > 0
            invariant
                self.inv(),
                self.data == old(self).data,
                start == old(self).pos(),
                bits <= 16,
                remaining <= bits,
                self.pos() == start + (bits - remaining),
                result == bits_value(self.data@, start, (bits - remaining) as nat),
            decreases remaining,
        {
            if self.byte_pos >= self.data.len() {
                return Err(());
            }
            let available: u8 = 8 - self.bit_pos;
            let take: u8 = if remaining < available { remaining } else { available };
            let byte: u32 = self.data[self.byte_pos] as u32;
            let shift: u8 = available - take;
            let ghost done = (bits - remaining) as nat;
            let ghost before = result;
            proof {
                lemma_bits_value_bound(self.data@, start, done);
                lemma_bits_value_bound(self.data@, start, (done + take) as nat);
                lemma_byte_bits(self.data@, self.pos(), take as nat);
                lemma_bits_value_concat(self.data@, start, done, take as nat);
                let t: u32 = take as u32;
                let sh: u32 = shift as u32;
                let d: u32 = done as u32;
                assert(1 <= t && t <= 8 ==> 1 <= (1u32 << t) && (1u32 << t) <= 256) by (bit_vector);
                assert(byte < 256 && 1 <= t && t <= 8 && d + t <= 16 && sh <= 8 && before < (1u32 << d)
                    ==> (before << t) | ((byte >> sh) & (((1u32 << t) - 1) as u32)) == before * (1u32
                    << t) + ((byte >> sh) & (((1u32 << t) - 1) as u32))) by (bit_vector);
            }
            let mask: u32 = (1u32 << (take as u32)) - 1;
            result = (result << (take as u32)) | ((byte >> (shift as u32)) & mask);
            remaining = remaining - take;
            self.bit_pos = self.bit_pos + take;
            if self.bit_pos >= 8 {
                self.bit_pos = 0;
                self.byte_pos = self.byte_pos + 1;
            }
        }
        proof {
            lemma_bits_value_bound(self.data@, start, bits as nat);
        }
        Ok(result as u16)
    }
}

/// A single bit is a digit of its byte in the binary system; bit 0 is the highest digit of the
/// first byte.
pub proof fn law_bits_are_counted_from_the_top(data: Seq<u8>, k: int)
    requires
        0 <= k < 8 * data.len(),
    ensures
        bits_value(data, k, 1) == data[k / 8] as nat / vstd::arithmetic::power2::pow2(
            (7 - k % 8) as nat,
        ) % 2,
{
    reveal_with_fuel(bits_value, 2);
    let b: u8 = data[k / 8];
    let s: u8 = (7 - k % 8) as u8;
    vstd::bits::lemma_u8_shr_is_div(b, s);
    let x: u8 = b >> s;
    assert(x & 1u8 == x % 2u8) by (bit_vector);
    assert(bits_value(data, k, 0) == 0);
}

/// Eight bits from the start of a byte are that byte.
pub proof fn law_a_byte_is_its_eight_bits(data: Seq<u8>, i: int)
    requires
        0 <= i < data.len(),
    ensures
        bits_value(data, 8 * i, 8) == data[i],
{
    lemma_byte_bits(data, 8 * i, 8);
    let byte: u32 = data[i] as u32;
    assert(byte < 256 ==> (byte >> 0u32) & (((1u32 << 8u32) - 1) as u32) == byte) by (bit_vector);
    assert((8 * i) / 8 == i && (8 * i) % 8 == 0);
}

/// A number can be read in two pieces: the first piece makes its upper digits and the bits right
/// behind it the lower ones. No bits are no number.
pub proof fn law_a_number_can_be_read_in_pieces(data: Seq<u8>, pos: int, a: nat, b: nat)
    ensures
        bits_value(data, pos, 0) == 0,
        bits_value(data, pos, a + b) == bits_value(data, pos, a) * vstd::arithmetic::power2::pow2(b)
            + bits_value(data, pos + a, b),
    decreases b,
{
    if b == 0 {
        vstd::arithmetic::power2::lemma2_to64();
        let x = bits_value(data, pos, a);
        assert(x * 1 == x);
    } else {
        law_a_number_can_be_read_in_pieces(data, pos, a, (b - 1) as nat);
        vstd::arithmetic::power2::lemma_pow2_unfold(b);
        let x = bits_value(data, pos, a);
        let p = vstd::arithmetic::power2::pow2((b - 1) as nat);
        let q = vstd::arithmetic::power2::pow2(b);
        assert(2 * (x * p) == x * q) by (nonlinear_arith)
            requires
                q == 2 * p,
        ;
        assert((a + b - 1) as nat == a + (b - 1) as nat);
        assert(pos + (a + b) - 1 == (pos + a) + b - 1);
    }
}

/// Only the bytes in which the bits lie count.
pub proof fn law_a_number_depends_on_its_own_bits(data: Seq<u8>, other: Seq<u8>, pos: int, n: nat)
    requires
        0 <= pos,
        forall|i: int| pos / 8 <= i && 8 * i < pos + n ==> data[i] == other[i],
    ensures
        bits_value(data, pos, n) == bits_value(other, pos, n),
    decreases n,
{
    if n > 0 {
        law_a_number_depends_on_its_own_bits(data, other, pos, (n - 1) as nat);
        let i = (pos + n - 1) / 8;
        assert(data[i] == other[i]);
    }
}

} // verus!
