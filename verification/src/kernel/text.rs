//! Text helpers: number formatting and the few string operations that the rules need.

use vstd::prelude::*;

verus! {

/// The hexadecimal digit `d`, in upper case.
pub open spec fn hex_digit(d: int) -> char {
    if d == 0 {
        '0'
    } else if d == 1 {
        '1'
    } else if d == 2 {
        '2'
    } else if d == 3 {
        '3'
    } else if d == 4 {
        '4'
    } else if d == 5 {
        '5'
    } else if d == 6 {
        '6'
    } else if d == 7 {
        '7'
    } else if d == 8 {
        '8'
    } else if d == 9 {
        '9'
    } else if d == 10 {
        'A'
    } else if d == 11 {
        'B'
    } else if d == 12 {
        'C'
    } else if d == 13 {
        'D'
    } else if d == 14 {
        'E'
    } else {
        'F'
    }
}

/// `n` in decimal, without leading zeros.
pub open spec fn dec_text(n: nat) -> Seq<char>
    decreases n,
{
    if n < 10 {
        seq![hex_digit(n as int)]
    } else {
        dec_text(n / 10).push(hex_digit((n % 10) as int))
    }
}

/// The `width` lowest hexadecimal digits of `n`, in upper case.
pub open spec fn hex_text(n: nat, width: nat) -> Seq<char>
    decreases width,
{
    if width == 0 {
        Seq::empty()
    } else {
        hex_text(n / 16, (width - 1) as nat).push(hex_digit((n % 16) as int))
    }
}

/// `pattern` occurs somewhere in `text`.
pub open spec fn contains_text(text: Seq<char>, pattern: Seq<char>) -> bool {
    exists|i: int|
        0 <= i && i + pattern.len() <= text.len() && #[trigger] text.subrange(i, i + pattern.len())
            == pattern
}

/// `text` begins with `prefix`.
pub open spec fn starts_with_text(text: Seq<char>, prefix: Seq<char>) -> bool {
    prefix.len() <= text.len() && text.subrange(0, prefix.len() as int) == prefix
}

/// Lower-case form of a text, as `str::to_lowercase` gives it.
pub uninterp spec fn lowercase_text(text: Seq<char>) -> Seq<char>;

/// Text of a byte sequence, as `String::from_utf8_lossy` gives it.
pub uninterp spec fn utf8_lossy_text(bytes: Seq<u8>) -> Seq<char>;

/// Calls `str::contains` with a string pattern: true exactly when the pattern occurs in the text.
#[verifier::external_body]
pub(crate) fn text_contains(text: &str, pattern: &str) -> (r: bool)
    ensures
        r == contains_text(text@, pattern@),
{
    text.contains(pattern)
}

/// Calls `str::starts_with` with a string pattern: true exactly when the text begins with it.
#[verifier::external_body]
pub(crate) fn text_starts_with(text: &str, prefix: &str) -> (r: bool)
    ensures
        r == starts_with_text(text@, prefix@),
{
    text.starts_with(prefix)
}

/// Calls `str::to_lowercase`; the result is a function of the text alone and carries the name
/// `lowercase_text`.
#[verifier::external_body]
pub(crate) fn text_to_lowercase(text: &str) -> (r: String)
    ensures
        r@ == lowercase_text(text@),
{
    text.to_lowercase()
}

/// Calls `String::from_utf8_lossy`. The result is a function of the bytes alone and carries the
/// name `utf8_lossy_text`; valid UTF-8 is decoded unchanged.
#[verifier::external_body]
pub(crate) fn text_from_utf8_lossy(bytes: &[u8]) -> (r: String)
    ensures
        r@ == utf8_lossy_text(bytes@),
        vstd::utf8::valid_utf8(bytes@) ==> r@ == vstd::utf8::decode_utf8(bytes@),
{
    String::from_utf8_lossy(bytes).into_owned()
}

/// Two texts are equal character by character.
pub fn text_eq(a: &str, b: &str) -> (r: bool)
    ensures
        r == (a@ == b@),
{
    a.to_string() == b.to_string()
}

/// Appends the digit `d`.
fn append_digit(out: &mut String, d: u8)
    requires
        d < 16,
    ensures
        final(out)@ == old(out)@.push(hex_digit(d as int)),
{
    let ghost before = out@;
    match d {
        0 => {
            proof { reveal_strlit("0"); }
            out.append("0");
        },
        1 => {
            proof { reveal_strlit("1"); }
            out.append("1");
        },
        2 => {
            proof { reveal_strlit("2"); }
            out.append("2");
        },
        3 => {
            proof { reveal_strlit("3"); }
            out.append("3");
        },
        4 => {
            proof { reveal_strlit("4"); }
            out.append("4");
        },
        5 => {
            proof { reveal_strlit("5"); }
            out.append("5");
        },
        6 => {
            proof { reveal_strlit("6"); }
            out.append("6");
        },
        7 => {
            proof { reveal_strlit("7"); }
            out.append("7");
        },
        8 => {
            proof { reveal_strlit("8"); }
            out.append("8");
        },
        9 => {
            proof { reveal_strlit("9"); }
            out.append("9");
        },
        10 => {
            proof { reveal_strlit("A"); }
            out.append("A");
        },
        11 => {
            proof { reveal_strlit("B"); }
            out.append("B");
        },
        12 => {
            proof { reveal_strlit("C"); }
            out.append("C");
        },
        13 => {
            proof { reveal_strlit("D"); }
            out.append("D");
        },
        14 => {
            proof { reveal_strlit("E"); }
            out.append("E");
        },
        _ => {
            proof { reveal_strlit("F"); }
            out.append("F");
        },
    }
    assert(out@ =~= before.push(hex_digit(d as int)));
}

/// Appends `n` in decimal.
pub fn append_dec(out: &mut String, n: u64)
    ensures
        final(out)@ == old(out)@ + dec_text(n as nat),
    decreases n,
{
    let ghost before = out@;
    if n >= 10 {
        append_dec(out, n / 10);
    }
    append_digit(out, (n % 10) as u8);
    assert(out@ =~= before + dec_text(n as nat));
}

/// Appends the `width` lowest hexadecimal digits of `n`.
pub fn append_hex(out: &mut String, n: u64, width: u8)
    ensures
        final(out)@ == old(out)@ + hex_text(n as nat, width as nat),
    decreases width,
{
    let ghost before = out@;
    if width > 0 {
        append_hex(out, n / 16, width - 1);
        append_digit(out, (n % 16) as u8);
    }
    assert(out@ =~= before + hex_text(n as nat, width as nat));
}

/// `label`, a decimal number, and `tail`.
pub fn text_dec(label: &str, n: u64, tail: &str) -> (r: String)
    ensures
        r@ == label@ + dec_text(n as nat) + tail@,
{
    let mut out: String = label.to_string();
    append_dec(&mut out, n);
    out.append(tail);
    out
}

/// `label`, a decimal number, `mid`, and a decimal number.
pub fn text_dec2(label: &str, a: u64, mid: &str, b: u64) -> (r: String)
    ensures
        r@ == label@ + dec_text(a as nat) + mid@ + dec_text(b as nat),
{
    let mut out: String = label.to_string();
    append_dec(&mut out, a);
    out.append(mid);
    append_dec(&mut out, b);
    out
}

/// The number that a digit stands for.
pub open spec fn digit_value(c: char) -> int {
    if c as int <= 57 {
        c as int - 48
    } else {
        c as int - 55
    }
}

/// The number that a text of digits stands for, to a base.
pub open spec fn number_of(t: Seq<char>, base: int) -> int
    decreases t.len(),
{
    if t.len() == 0 {
        0
    } else {
        base * number_of(t.drop_last(), base) + digit_value(t.last())
    }
}

/// Digits are '0' to '9' and 'A' to 'F'.
pub proof fn law_digits_are_these(d: int)
    requires
        0 <= d < 16,
    ensures
        d < 10 ==> hex_digit(d) as int == '0' as int + d,
        d >= 10 ==> hex_digit(d) as int == 'A' as int + (d - 10),
        digit_value(hex_digit(d)) == d,
{
}

/// A decimal text reads back as its number, holds only decimal digits, and has no leading zero.
pub proof fn law_a_decimal_text_is_its_number(n: nat)
    ensures
        number_of(dec_text(n), 10) == n,
        dec_text(n).len() > 0,
        forall|i: int|
            0 <= i < dec_text(n).len() ==> 48 <= (#[trigger] dec_text(n)[i]) as int <= 57,
        dec_text(n)[0] == '0' ==> n == 0,
        n < 10 ==> dec_text(n).len() == 1,
    decreases n,
{
    let t = dec_text(n);
    if n >= 10 {
        law_a_decimal_text_is_its_number(n / 10);
        let p = dec_text(n / 10);
        assert(t.drop_last() =~= p);
        assert(t[0] == p[0]);
        assert forall|i: int| 0 <= i < t.len() implies 48 <= (#[trigger] t[i]) as int <= 57 by {
            if i < p.len() {
                assert(t[i] == p[i]);
            }
        }
    } else {
        assert(t.drop_last() =~= Seq::empty());
        assert(number_of(t.drop_last(), 10) == 0);
    }
}

/// Sixteen to a power.
pub open spec fn sixteen_to(width: nat) -> nat
    decreases width,
{
    if width == 0 {
        1
    } else {
        16 * sixteen_to((width - 1) as nat)
    }
}

/// A hexadecimal text of a width has that many digits and reads back as the number, as far as the
/// width holds it.
pub proof fn law_a_hexadecimal_text_is_its_number(n: nat, width: nat)
    ensures
        hex_text(n, width).len() == width,
        n < sixteen_to(width) ==> number_of(hex_text(n, width), 16) == n,
    decreases width,
{
    if width > 0 {
        law_a_hexadecimal_text_is_its_number(n / 16, (width - 1) as nat);
        let t = hex_text(n, width);
        assert(t.drop_last() =~= hex_text(n / 16, (width - 1) as nat));
    }
}

/// A byte is written as its high and its low digit.
pub proof fn law_a_byte_is_two_digits(b: u8)
    ensures
        hex_text(b as nat, 2) == seq![hex_digit(b as int / 16), hex_digit(b as int % 16)],
{
    reveal_with_fuel(hex_text, 3);
    assert(hex_text(b as nat, 2) =~= seq![hex_digit(b as int / 16), hex_digit(b as int % 16)]);
}

/// A text contains a pattern wherever the pattern was put into it, and begins with whatever it was
/// begun with; a text shorter than the pattern does neither.
pub proof fn law_texts_contain_what_was_put_into_them(
    front: Seq<char>,
    pattern: Seq<char>,
    back: Seq<char>,
)
    ensures
        contains_text(front + pattern + back, pattern),
        starts_with_text(pattern + back, pattern),
        front.len() < pattern.len() ==> !contains_text(front, pattern) && !starts_with_text(
            front,
            pattern,
        ),
        starts_with_text(front, pattern) ==> contains_text(front, pattern) && front == pattern
            + front.subrange(pattern.len() as int, front.len() as int),
        contains_text(front, pattern) ==> exists|i: int|
            0 <= i <= front.len() - pattern.len() && front == #[trigger] front.subrange(0, i)
                + pattern + front.subrange(i + pattern.len(), front.len() as int),
{
    let all = front + pattern + back;
    let n = front.len() as int;
    assert(all.subrange(n, n + pattern.len()) =~= pattern);
    assert((pattern + back).subrange(0, pattern.len() as int) =~= pattern);
    if starts_with_text(front, pattern) {
        assert(front.subrange(0, 0int + pattern.len()) == pattern);
        assert(front =~= pattern + front.subrange(pattern.len() as int, front.len() as int));
    }
    if contains_text(front, pattern) {
        let i = choose|i: int|
            0 <= i && i + pattern.len() <= front.len() && #[trigger] front.subrange(
                i,
                i + pattern.len(),
            ) == pattern;
        assert(front =~= front.subrange(0, i) + pattern + front.subrange(
            i + pattern.len(),
            front.len() as int,
        ));
    }
}

} // verus!
