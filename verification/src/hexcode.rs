//! Lowercase hexadecimal encoding and decoding of byte sequences, the
//! textual backbone of every quantity this crate puts on the wire.

use vstd::prelude::*;

verus! {

/// The lowercase character standing for a single hexadecimal digit value.
pub open spec fn hex_digit_char(v: u8) -> char {
    if v == 0 {
        '0'
    } else if v == 1 {
        '1'
    } else if v == 2 {
        '2'
    } else if v == 3 {
        '3'
    } else if v == 4 {
        '4'
    } else if v == 5 {
        '5'
    } else if v == 6 {
        '6'
    } else if v == 7 {
        '7'
    } else if v == 8 {
        '8'
    } else if v == 9 {
        '9'
    } else if v == 10 {
        'a'
    } else if v == 11 {
        'b'
    } else if v == 12 {
        'c'
    } else if v == 13 {
        'd'
    } else if v == 14 {
        'e'
    } else {
        'f'
    }
}

/// Whether a character is a hexadecimal digit, either case.
pub open spec fn is_hex_digit(c: char) -> bool {
    c == '0' || c == '1' || c == '2' || c == '3' || c == '4' || c == '5' || c == '6' || c == '7'
        || c == '8' || c == '9' || c == 'a' || c == 'b' || c == 'c' || c == 'd' || c == 'e'
        || c == 'f' || c == 'A' || c == 'B' || c == 'C' || c == 'D' || c == 'E' || c == 'F'
}

/// The value of a hexadecimal digit character; zero on anything else.
pub open spec fn hex_val(c: char) -> u8 {
    if c == '1' {
        1
    } else if c == '2' {
        2
    } else if c == '3' {
        3
    } else if c == '4' {
        4
    } else if c == '5' {
        5
    } else if c == '6' {
        6
    } else if c == '7' {
        7
    } else if c == '8' {
        8
    } else if c == '9' {
        9
    } else if c == 'a' || c == 'A' {
        10
    } else if c == 'b' || c == 'B' {
        11
    } else if c == 'c' || c == 'C' {
        12
    } else if c == 'd' || c == 'D' {
        13
    } else if c == 'e' || c == 'E' {
        14
    } else if c == 'f' || c == 'F' {
        15
    } else {
        0
    }
}

/// The nibble values of a byte sequence, high nibble first.
pub open spec fn nibbles_of_bytes(b: Seq<u8>) -> Seq<u8> {
    Seq::new(2 * b.len(), |i: int| if i % 2 == 0 { (b[i / 2] / 16) as u8 } else { (b[i / 2] % 16) as u8 })
}

/// Nibble values rendered as lowercase hexadecimal characters.
pub open spec fn hex_chars_of(n: Seq<u8>) -> Seq<char> {
    n.map(|i: int, v: u8| hex_digit_char(v))
}

/// The full lowercase hexadecimal rendering of a byte sequence.
pub open spec fn hex_string_of_bytes(b: Seq<u8>) -> Seq<char> {
    hex_chars_of(nibbles_of_bytes(b))
}

/// The digit values of a sequence of hexadecimal characters.
pub open spec fn nibble_vals_of(d: Seq<char>) -> Seq<u8> {
    d.map(|i: int, c: char| hex_val(c))
}

/// Whether every character of the sequence is a hexadecimal digit.
pub open spec fn all_hex_digits(d: Seq<char>) -> bool {
    forall|i: int| 0 <= i < d.len() ==> is_hex_digit(d[i])
}

/// Pairs of nibble values folded back into bytes.
pub open spec fn bytes_of_nibbles(p: Seq<u8>) -> Seq<u8> {
    Seq::new(p.len() / 2, |i: int| (p[2 * i] * 16 + p[2 * i + 1]) as u8)
}

/// How many zero values stand at the front of the sequence.
pub open spec fn count_leading_zeros(t: Seq<u8>) -> nat
    decreases t.len(),
{
    if t.len() == 0 || t[0] != 0 {
        0
    } else {
        1 + count_leading_zeros(t.skip(1))
    }
}

pub proof fn lemma_hex_digit_char(v: u8)
    requires
        v < 16,
    ensures
        is_hex_digit(hex_digit_char(v)),
        hex_val(hex_digit_char(v)) == v,
{
}

pub proof fn lemma_count_leading_zeros(t: Seq<u8>)
    ensures
        count_leading_zeros(t) <= t.len(),
        forall|i: int| 0 <= i < count_leading_zeros(t) ==> t[i] == 0,
        count_leading_zeros(t) < t.len() ==> t[count_leading_zeros(t) as int] != 0,
    decreases t.len(),
{
    if t.len() == 0 || t[0] != 0 {
    } else {
        lemma_count_leading_zeros(t.skip(1));
        let k = count_leading_zeros(t);
        assert forall|i: int| 0 <= i < k implies t[i] == 0 by {
            if i > 0 {
                assert(t.skip(1)[i - 1] == t[i]);
            }
        }
        if k < t.len() {
            assert(t.skip(1)[k - 1] == t[k as int]);
        }
    }
}

pub proof fn lemma_count_leading_zeros_is(t: Seq<u8>, k: int)
    requires
        0 <= k <= t.len(),
        forall|i: int| 0 <= i < k ==> t[i] == 0,
        k < t.len() ==> t[k] != 0,
    ensures
        count_leading_zeros(t) == k,
    decreases t.len(),
{
    if t.len() == 0 {
    } else if t[0] != 0 {
        assert(k == 0);
    } else {
        assert(k >= 1) by {
            if k == 0 {
                assert(t[0] != 0);
            }
        }
        assert forall|i: int| 0 <= i < k - 1 implies t.skip(1)[i] == 0 by {
            assert(t.skip(1)[i] == t[i + 1]);
        }
        if k - 1 < t.skip(1).len() {
            assert(t.skip(1)[k - 1] == t[k]);
        }
        lemma_count_leading_zeros_is(t.skip(1), k - 1);
    }
}

/// Folding the nibbles of a byte sequence back into bytes is the identity.
pub proof fn lemma_bytes_nibbles_inverse(b: Seq<u8>)
    ensures
        bytes_of_nibbles(nibbles_of_bytes(b)) == b,
{
    let n = nibbles_of_bytes(b);
    assert forall|i: int| 0 <= i < b.len() implies bytes_of_nibbles(n)[i] == b[i] by {
        assert(n[2 * i] == b[i] / 16);
        assert(n[2 * i + 1] == b[i] % 16);
        assert((b[i] / 16) * 16 + b[i] % 16 == b[i]) by {
            vstd::arithmetic::div_mod::lemma_fundamental_div_mod(b[i] as int, 16);
        }
    }
    assert(bytes_of_nibbles(nibbles_of_bytes(b)) =~= b);
}

/// Every nibble value of a byte sequence is below sixteen.
pub proof fn lemma_nibbles_bound(b: Seq<u8>)
    ensures
        forall|i: int| 0 <= i < nibbles_of_bytes(b).len() ==> nibbles_of_bytes(b)[i] < 16,
{
}

pub fn hex_digit_char_exec(v: u8) -> (c: char)
    requires
        v < 16,
    ensures
        c == hex_digit_char(v),
{
    if v == 0 {
        '0'
    } else if v == 1 {
        '1'
    } else if v == 2 {
        '2'
    } else if v == 3 {
        '3'
    } else if v == 4 {
        '4'
    } else if v == 5 {
        '5'
    } else if v == 6 {
        '6'
    } else if v == 7 {
        '7'
    } else if v == 8 {
        '8'
    } else if v == 9 {
        '9'
    } else if v == 10 {
        'a'
    } else if v == 11 {
        'b'
    } else if v == 12 {
        'c'
    } else if v == 13 {
        'd'
    } else if v == 14 {
        'e'
    } else {
        'f'
    }
}

pub fn hex_val_exec(c: char) -> (r: Option<u8>)
    ensures
        r matches Some(v) ==> is_hex_digit(c) && v == hex_val(c),
        r is None ==> !is_hex_digit(c),
{
    match c {
        '0' => Some(0),
        '1' => Some(1),
        '2' => Some(2),
        '3' => Some(3),
        '4' => Some(4),
        '5' => Some(5),
        '6' => Some(6),
        '7' => Some(7),
        '8' => Some(8),
        '9' => Some(9),
        'a' | 'A' => Some(10),
        'b' | 'B' => Some(11),
        'c' | 'C' => Some(12),
        'd' | 'D' => Some(13),
        'e' | 'E' => Some(14),
        'f' | 'F' => Some(15),
        _ => None,
    }
}

/// The nibble values of a byte vector, high nibble of each byte first.
#[verifier::loop_isolation(false)]
pub fn nibbles_of_bytes_exec(b: &Vec<u8>) -> (r: Vec<u8>)
    ensures
        r@ == nibbles_of_bytes(b@),
{
    let mut r: Vec<u8> = Vec::new();
    let mut i: usize = 0;
    while i < b.len()
        invariant
            0 <= i <= b@.len(),
            r@.len() == 2 * i,
            forall|j: int| 0 <= j < r@.len() ==> r@[j] == nibbles_of_bytes(b@)[j],
        decreases b@.len() - i,
    {
        let x = b[i];
        r.push(x / 16);
        r.push(x % 16);
        i += 1;
    }
    proof {
        assert(r@ =~= nibbles_of_bytes(b@));
    }
    r
}

/// The `0x`-prefixed lowercase hexadecimal rendering of a byte vector, as
/// characters.
#[verifier::loop_isolation(false)]
pub fn hex_chars_0x(b: &Vec<u8>) -> (r: Vec<char>)
    ensures
        r@ == seq!['0', 'x'] + hex_string_of_bytes(b@),
{
    let nibs = nibbles_of_bytes_exec(b);
    let mut out: Vec<char> = Vec::new();
    out.push('0');
    out.push('x');
    let mut j: usize = 0;
    while j < nibs.len()
        invariant
            nibs@ == nibbles_of_bytes(b@),
            0 <= j <= nibs@.len(),
            out@.len() == 2 + j,
            out@[0] == '0',
            out@[1] == 'x',
            forall|t: int| 2 <= t < out@.len() ==> #[trigger] out@[t] == hex_digit_char(
                nibbles_of_bytes(b@)[t - 2],
            ),
        decreases nibs@.len() - j,
    {
        proof {
            lemma_nibbles_bound(b@);
        }
        out.push(hex_digit_char_exec(nibs[j]));
        j += 1;
    }
    proof {
        assert(out@ =~= seq!['0', 'x'] + hex_string_of_bytes(b@));
    }
    out
}

} // verus!
