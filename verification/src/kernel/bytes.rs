//! Little-endian numbers and zero-padded packets.

use vstd::prelude::*;

verus! {

/// The 16-bit number with low byte `lo` and high byte `hi`.
pub open spec fn le16(lo: u8, hi: u8) -> u16 {
    (lo + 256 * hi) as u16
}

/// The 32-bit number with bytes `a` (lowest) to `d`.
pub open spec fn le32(a: u8, b: u8, c: u8, d: u8) -> u32 {
    (a + 256 * b + 65536 * c + 16777216 * d) as u32
}


/// The two bytes of a 16-bit number, lowest first.
pub open spec fn le16_bytes(v: u16) -> Seq<u8> {
    seq![(v % 256) as u8, (v / 256) as u8]
}

/// The four bytes of a 32-bit number, lowest first.
pub open spec fn le32_bytes(v: u32) -> Seq<u8> {
    seq![
        (v % 256) as u8,
        (v / 256 % 256) as u8,
        (v / 65536 % 256) as u8,
        (v / 16777216) as u8,
    ]
}

/// `prefix` filled up with zeros to `len` bytes.
pub open spec fn padded(prefix: Seq<u8>, len: nat) -> Seq<u8> {
    Seq::new(len, |i: int| if i < prefix.len() { prefix[i] } else { 0u8 })
}

/// A HID report without its report id.
pub open spec fn without_report_id(report: Seq<u8>) -> Seq<u8> {
    if report.len() == 0 {
        report
    } else {
        report.subrange(1, report.len() as int)
    }
}

/// Reads a 16-bit number.
pub fn u16_from_le(lo: u8, hi: u8) -> (r: u16)
    ensures
        r == le16(lo, hi),
        r == lo + 256 * hi,
{
    lo as u16 + 256 * (hi as u16)
}

/// Reads a 32-bit number.
pub fn u32_from_le(a: u8, b: u8, c: u8, d: u8) -> (r: u32)
    ensures
        r == le32(a, b, c, d),
        r == a + 256 * b + 65536 * c + 16777216 * d,
{
    a as u32 + 256 * (b as u32) + 65536 * (c as u32) + 16777216 * (d as u32)
}

/// Low byte of a 16-bit number.
pub fn low_byte(v: u16) -> (r: u8)
    ensures
        r == v % 256,
{
    (v % 256) as u8
}

/// High byte of a 16-bit number.
pub fn high_byte(v: u16) -> (r: u8)
    ensures
        r == v / 256,
{
    (v / 256) as u8
}

/// A 16-bit number survives its byte form.
pub proof fn law_le16_round_trip(v: u16)
    ensures
        le16(le16_bytes(v)[0], le16_bytes(v)[1]) == v,
{
}

/// A 32-bit number survives its byte form.
pub proof fn law_le32_round_trip(v: u32)
    ensures
        ({
            let b = le32_bytes(v);
            le32(b[0], b[1], b[2], b[3]) == v
        }),
{
}

/// A 64-byte packet that starts with `prefix`.
pub fn packet_of(prefix: &[u8]) -> (r: [u8; 64])
    requires
        prefix@.len() <= 64,
    ensures
        r@ == padded(prefix@, 64),
{
    let mut packet: [u8; 64] = [0; 64];
    let mut i: usize = 0;
    while i < prefix.len()
        invariant
            i <= prefix@.len() <= 64,
            forall|k: int| 0 <= k < 64 ==> #[trigger] packet@[k] == (if k < i { prefix@[k] } else { 0u8 }),
        decreases prefix@.len() - i,
    {
        packet[i] = prefix[i];
        i = i + 1;
    }
    assert(packet@ =~= padded(prefix@, 64));
    packet
}

/// Copies bytes into a new vector.
pub fn to_vec(bytes: &[u8]) -> (r: Vec<u8>)
    ensures
        r@ == bytes@,
{
    let mut out: Vec<u8> = Vec::with_capacity(bytes.len());
    let mut i: usize = 0;
    while i < bytes.len()
        invariant
            i <= bytes@.len(),
            out@ == bytes@.subrange(0, i as int),
        decreases bytes@.len() - i,
    {
        out.push(bytes[i]);
        assert(bytes@.subrange(0, i + 1) =~= bytes@.subrange(0, i as int).push(bytes@[i as int]));
        i = i + 1;
    }
    assert(bytes@.subrange(0, bytes@.len() as int) =~= bytes@);
    out
}

/// Appends bytes to a vector.
pub fn append_bytes(out: &mut Vec<u8>, bytes: &[u8])
    ensures
        final(out)@ == old(out)@ + bytes@,
{
    let ghost before = out@;
    let mut i: usize = 0;
    while i < bytes.len()
        invariant
            i <= bytes@.len(),
            out@ == before + bytes@.subrange(0, i as int),
        decreases bytes@.len() - i,
    {
        out.push(bytes[i]);
        assert(bytes@.subrange(0, i + 1) =~= bytes@.subrange(0, i as int).push(bytes@[i as int]));
        i = i + 1;
    }
    assert(bytes@.subrange(0, bytes@.len() as int) =~= bytes@);
}

/// Two byte strings are equal.
pub fn bytes_eq(a: &[u8], b: &[u8]) -> (r: bool)
    ensures
        r == (a@ == b@),
{
    if a.len() != b.len() {
        return false;
    }
    let mut i: usize = 0;
    while i < a.len()
        invariant
            i <= a@.len() == b@.len(),
            forall|k: int| 0 <= k < i ==> a@[k] == b@[k],
        decreases a@.len() - i,
    {
        if a[i] != b[i] {
            assert(a@[i as int] != b@[i as int]);
            return false;
        }
        i = i + 1;
    }
    assert(a@ =~= b@);
    true
}

/// Numbers are written with the low byte first: the bytes add up to the number, each one worth 256
/// times the one before, and any bytes read as the number they add up to.
pub proof fn law_numbers_go_low_byte_first(v: u16, w: u32, a: u8, b: u8, c: u8, d: u8)
    ensures
        le16_bytes(v).len() == 2,
        le16_bytes(v)[0] + 256 * le16_bytes(v)[1] == v,
        le32_bytes(w).len() == 4,
        le32_bytes(w)[0] + 256 * le32_bytes(w)[1] + 65536 * le32_bytes(w)[2] + 16777216
            * le32_bytes(w)[3] == w,
        le16(a, b) == a + 256 * b,
        le32(a, b, c, d) == a + 256 * b + 65536 * c + 16777216 * d,
{
}

/// A packet begins with what was put into it and holds zeros behind; a report behind its id is the
/// report from its second byte on.
pub proof fn law_packets_are_filled_up_with_zeros(prefix: Seq<u8>, len: nat, id: u8)
    requires
        prefix.len() <= len,
    ensures
        padded(prefix, len).len() == len,
        padded(prefix, len).subrange(0, prefix.len() as int) == prefix,
        forall|i: int| prefix.len() <= i < len ==> #[trigger] padded(prefix, len)[i] == 0,
        without_report_id(seq![id] + prefix) == prefix,
{
    assert(padded(prefix, len).subrange(0, prefix.len() as int) =~= prefix);
    assert(without_report_id(seq![id] + prefix) =~= prefix);
}

} // verus!
