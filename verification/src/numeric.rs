//! A 256-bit unsigned quantity, held as 32 big-endian bytes, with the
//! minimal `0x`-prefixed hexadecimal rendering a JSON-RPC node expects and
//! the hexadecimal parse its replies call for.

use vstd::prelude::*;

use crate::hexcode::all_hex_digits;
use crate::hexcode::bytes_of_nibbles;
use crate::hexcode::count_leading_zeros;
use crate::hexcode::hex_chars_of;
use crate::hexcode::hex_digit_char_exec;
use crate::hexcode::hex_val_exec;
use crate::hexcode::lemma_count_leading_zeros;
use crate::hexcode::lemma_count_leading_zeros_is;
use crate::hexcode::nibble_vals_of;
use crate::hexcode::nibbles_of_bytes;
use crate::hexcode::nibbles_of_bytes_exec;
use crate::rpc::string_from_chars;

verus! {

/// A 256-bit unsigned integer, stored as exactly 32 big-endian bytes.
#[derive(Debug)]
pub struct U256 {
    bytes: Vec<u8>,
}

/// 256 raised to the given power.
pub open spec fn pow256(k: nat) -> nat
    decreases k,
{
    if k == 0 {
        1
    } else {
        256 * pow256((k - 1) as nat)
    }
}

/// The byte of a 64-bit value at the given significance (0 is the least
/// significant byte).
pub open spec fn u64_be_byte(x: u64, k: int) -> u8 {
    (((x as nat) / pow256(k as nat)) % 256) as u8
}

/// The 32 big-endian bytes of a 64-bit value.
pub open spec fn u64_be_seq(x: u64) -> Seq<u8> {
    Seq::new(32, |i: int| if i < 24 { 0u8 } else { u64_be_byte(x, 31 - i) })
}

/// The minimal hexadecimal nibble values of a byte sequence: leading zero
/// nibbles dropped, a lone zero standing for the value zero.
pub open spec fn min_hex_nibbles(b: Seq<u8>) -> Seq<u8> {
    let n = nibbles_of_bytes(b);
    let s = n.skip(count_leading_zeros(n) as int);
    if s.len() == 0 {
        seq![0u8]
    } else {
        s
    }
}

/// The canonical rendering of a 256-bit quantity: `0x` followed by its
/// minimal lowercase hexadecimal digits, `0x0` for zero.
pub open spec fn u256_hex_spec(b: Seq<u8>) -> Seq<char> {
    seq!['0', 'x'] + hex_chars_of(min_hex_nibbles(b))
}

/// The nibble values of the digits with leading zero values dropped.
pub open spec fn stripped_nibbles(d: Seq<char>) -> Seq<u8> {
    nibble_vals_of(d).skip(count_leading_zeros(nibble_vals_of(d)) as int)
}

/// The digits left-padded with zero values to 64 nibbles.
pub open spec fn pad64(t: Seq<u8>) -> Seq<u8> {
    Seq::new(64, |i: int| if i < 64 - t.len() { 0u8 } else { t[i - (64 - t.len())] })
}

/// What a sequence of hexadecimal digit characters denotes as 32 big-endian
/// bytes: `Some` exactly when the digits are a nonempty, well-formed
/// hexadecimal numeral whose value fits in 256 bits.
pub open spec fn u256_from_hex_digits(d: Seq<char>) -> Option<Seq<u8>> {
    if d.len() > 0 && all_hex_digits(d) && stripped_nibbles(d).len() <= 64 {
        Some(bytes_of_nibbles(pad64(stripped_nibbles(d))))
    } else {
        None
    }
}

pub proof fn lemma_pow256_pos(k: nat)
    ensures
        pow256(k) >= 1,
    decreases k,
{
    if k > 0 {
        lemma_pow256_pos((k - 1) as nat);
    }
}

impl View for U256 {
    type V = Seq<u8>;

    closed spec fn view(&self) -> Seq<u8> {
        self.bytes@
    }
}

impl U256 {
    /// Well-formed: exactly 32 bytes.
    pub open spec fn wf(&self) -> bool {
        self@.len() == 32
    }

    /// The quantity given by a 64-bit value.
    #[verifier::loop_isolation(false)]
    pub fn from_u64(x: u64) -> (r: U256)
        ensures
            r.wf(),
            r@ == u64_be_seq(x),
    {
        let mut le: Vec<u8> = Vec::new();
        let mut rem: u64 = x;
        let mut k: usize = 0;
        proof {
            assert(pow256(0) == 1);
            assert((x as nat) / 1 == x as nat);
        }
        while k < 8
            invariant
                0 <= k <= 8,
                le@.len() == k,
                rem as nat == (x as nat) / pow256(k as nat),
                forall|j: int| 0 <= j < k ==> le@[j] == u64_be_byte(x, j),
            decreases 8 - k,
        {
            le.push((rem % 256) as u8);
            proof {
                lemma_pow256_pos(k as nat);
                vstd::arithmetic::div_mod::lemma_div_denominator(
                    x as int,
                    pow256(k as nat) as int,
                    256,
                );
                assert(pow256(k as nat) * 256 == pow256((k + 1) as nat));
            }
            rem = rem / 256;
            k += 1;
        }
        let mut bytes: Vec<u8> = Vec::new();
        let mut i: usize = 0;
        while i < 24
            invariant
                0 <= i <= 24,
                bytes@.len() == i,
                forall|j: int| 0 <= j < i ==> bytes@[j] == 0u8,
            decreases 24 - i,
        {
            bytes.push(0u8);
            i += 1;
        }
        let mut j: usize = 0;
        while j < 8
            invariant
                0 <= j <= 8,
                le@.len() == 8,
                forall|t: int| 0 <= t < 8 ==> le@[t] == u64_be_byte(x, t),
                bytes@.len() == 24 + j,
                forall|t: int| 0 <= t < 24 ==> bytes@[t] == 0u8,
                forall|t: int| 24 <= t < 24 + j ==> bytes@[t] == u64_be_byte(x, 31 - t),
            decreases 8 - j,
        {
            bytes.push(le[7 - j]);
            j += 1;
        }
        let r = U256 { bytes };
        proof {
            assert(r@ =~= u64_be_seq(x));
        }
        r
    }

    /// Whether the quantity holds exactly 32 bytes, decided at run time.
    pub fn is_well_formed(&self) -> (r: bool)
        ensures
            r == self.wf(),
    {
        self.bytes.len() == 32
    }

    /// The quantity given by 32 big-endian bytes.
    pub fn from_be_bytes(bytes: Vec<u8>) -> (r: U256)
        requires
            bytes@.len() == 32,
        ensures
            r.wf(),
            r@ == bytes@,
    {
        U256 { bytes }
    }

    /// The 32 big-endian bytes of the quantity.
    #[verifier::loop_isolation(false)]
    pub fn to_be_bytes(&self) -> (r: Vec<u8>)
        requires
            self.wf(),
        ensures
            r@ == self@,
    {
        let mut r: Vec<u8> = Vec::new();
        let mut i: usize = 0;
        while i < self.bytes.len()
            invariant
                0 <= i <= self.bytes@.len(),
                r@ == self.bytes@.take(i as int),
            decreases self.bytes@.len() - i,
        {
            r.push(self.bytes[i]);
            proof {
                assert(r@ =~= self.bytes@.take(i + 1));
            }
            i += 1;
        }
        proof {
            assert(r@ =~= self@);
        }
        r
    }

    /// The canonical `0x`-prefixed minimal lowercase hexadecimal rendering;
    /// zero renders as `0x0`.
    #[verifier::loop_isolation(false)]
    pub fn to_hex_string(&self) -> (r: String)
        requires
            self.wf(),
        ensures
            r@ == u256_hex_spec(self@),
    {
        let nibs = nibbles_of_bytes_exec(&self.bytes);
        let ghost n = nibbles_of_bytes(self@);
        let mut k: usize = 0;
        while k < nibs.len() && nibs[k] == 0
            invariant
                0 <= k <= nibs@.len(),
                nibs@ == n,
                forall|j: int| 0 <= j < k ==> nibs@[j] == 0u8,
            decreases nibs@.len() - k,
        {
            k += 1;
        }
        proof {
            lemma_count_leading_zeros_is(n, k as int);
        }
        let mut out: Vec<char> = Vec::new();
        out.push('0');
        out.push('x');
        if k == nibs.len() {
            out.push('0');
            proof {
                assert(min_hex_nibbles(self@) =~= seq![0u8]);
                assert(out@ =~= u256_hex_spec(self@));
            }
        } else {
            let ghost s = n.skip(k as int);
            let mut j: usize = k;
            while j < nibs.len()
                invariant
                    k <= j <= nibs@.len(),
                    nibs@ == n,
                    s == n.skip(k as int),
                    k < n.len(),
                    out@.len() == 2 + j - k,
                    out@[0] == '0',
                    out@[1] == 'x',
                    forall|t: int| 2 <= t < out@.len() ==> #[trigger] out@[t]
                        == crate::hexcode::hex_digit_char(s[t - 2]),
                decreases nibs@.len() - j,
            {
                let v = nibs[j];
                proof {
                    crate::hexcode::lemma_nibbles_bound(self@);
                    assert(nibbles_of_bytes(self@)[j as int] < 16);
                    assert(n[j as int] < 16);
                    assert(s[j - k] == n[j as int]);
                }
                out.push(hex_digit_char_exec(v));
                j += 1;
            }
            proof {
                assert(min_hex_nibbles(self@) == s);
                assert(out@ =~= u256_hex_spec(self@));
            }
        }
        string_from_chars(out)
    }

    /// The quantity denoted by a sequence of hexadecimal digit characters,
    /// or `None` where the digits are empty, malformed, or overflow 256 bits.
    #[verifier::loop_isolation(false)]
    pub fn from_hex_digits(digits: &Vec<char>) -> (r: Option<U256>)
        ensures
            match u256_from_hex_digits(digits@) {
                Some(b) => r matches Some(g) && g.wf() && g@ == b,
                None => r is None,
            },
    {
        if digits.len() == 0 {
            return None;
        }
        let mut nibs: Vec<u8> = Vec::new();
        let mut i: usize = 0;
        while i < digits.len()
            invariant
                0 <= i <= digits@.len(),
                nibs@.len() == i,
                forall|j: int| 0 <= j < i ==> crate::hexcode::is_hex_digit(digits@[j]),
                forall|j: int| 0 <= j < i ==> nibs@[j] == nibble_vals_of(digits@)[j],
            decreases digits@.len() - i,
        {
            match hex_val_exec(digits[i]) {
                Some(v) => {
                    nibs.push(v);
                },
                None => {
                    return None;
                },
            }
            i += 1;
        }
        proof {
            assert(nibs@ =~= nibble_vals_of(digits@));
        }
        let ghost nv = nibble_vals_of(digits@);
        let mut k: usize = 0;
        while k < nibs.len() && nibs[k] == 0
            invariant
                0 <= k <= nibs@.len(),
                nibs@ == nv,
                forall|j: int| 0 <= j < k ==> nibs@[j] == 0u8,
            decreases nibs@.len() - k,
        {
            k += 1;
        }
        proof {
            lemma_count_leading_zeros_is(nv, k as int);
        }
        let m = nibs.len() - k;
        if m > 64 {
            return None;
        }
        let ghost t = nv.skip(k as int);
        proof {
            assert forall|j: int| 0 <= j < nv.len() implies nv[j] < 16 by {
                assert(nv[j] == crate::hexcode::hex_val(digits@[j]));
            }
        }
        let off: usize = 64 - m;
        let mut bytes: Vec<u8> = Vec::new();
        let mut i2: usize = 0;
        while i2 < 32
            invariant
                0 <= i2 <= 32,
                nibs@ == nv,
                t == nv.skip(k as int),
                t.len() == m,
                m + k == nv.len(),
                off == 64 - m,
                m <= 64,
                k <= nv.len(),
                forall|j: int| 0 <= j < nv.len() ==> nv[j] < 16,
                bytes@.len() == i2,
                forall|j: int| 0 <= j < i2 ==> bytes@[j] == bytes_of_nibbles(pad64(t))[j],
            decreases 32 - i2,
        {
            let hi_idx = 2 * i2;
            let lo_idx = 2 * i2 + 1;
            let hi: u8;
            if hi_idx < off {
                hi = 0;
            } else {
                let idx = hi_idx - off;
                proof {
                    assert(idx < m);
                    assert(k + idx < nibs@.len());
                    assert(t[idx as int] == nv[k + idx]);
                }
                hi = nibs[k + idx];
            }
            let lo: u8;
            if lo_idx < off {
                lo = 0;
            } else {
                let idx = lo_idx - off;
                proof {
                    assert(idx < m);
                    assert(k + idx < nibs@.len());
                    assert(t[idx as int] == nv[k + idx]);
                }
                lo = nibs[k + idx];
            }
            proof {
                assert(pad64(t)[2 * i2 as int] == hi);
                assert(pad64(t)[2 * i2 as int + 1] == lo);
            }
            bytes.push(hi * 16 + lo);
            i2 += 1;
        }
        let r = U256 { bytes };
        proof {
            assert(r@ =~= bytes_of_nibbles(pad64(stripped_nibbles(digits@))));
        }
        Some(r)
    }
}

impl PartialEq for U256 {
    fn eq(&self, other: &U256) -> (r: bool) {
        eq_bytes(&self.bytes, &other.bytes)
    }
}

impl Eq for U256 {

}

impl vstd::std_specs::cmp::PartialEqSpecImpl for U256 {
    open spec fn obeys_eq_spec() -> bool {
        true
    }

    open spec fn eq_spec(&self, other: &U256) -> bool {
        self@ == other@
    }
}

/// Elementwise equality of two byte vectors.
pub fn eq_bytes(a: &Vec<u8>, b: &Vec<u8>) -> (r: bool)
    ensures
        r == (a@ == b@),
{
    if a.len() != b.len() {
        proof {
            assert(a@.len() != b@.len());
        }
        return false;
    }
    let mut i: usize = 0;
    while i < a.len()
        invariant
            0 <= i <= a@.len(),
            a@.len() == b@.len(),
            forall|j: int| 0 <= j < i ==> a@[j] == b@[j],
        decreases a@.len() - i,
    {
        if a[i] != b[i] {
            return false;
        }
        i += 1;
    }
    proof {
        assert(a@ =~= b@);
    }
    true
}

/// Law: rendering a 256-bit quantity to its canonical hex string and
/// parsing that string back yields the original 32 bytes.
pub proof fn lemma_u256_hex_round_trip(b: Seq<u8>)
    requires
        b.len() == 32,
    ensures
        u256_from_hex_digits(crate::gas::strip_hex_prefix(u256_hex_spec(b))) == Some(b),
{
    let s = u256_hex_spec(b);
    let n = nibbles_of_bytes(b);
    let m = min_hex_nibbles(b);
    let h = hex_chars_of(m);
    crate::hexcode::lemma_nibbles_bound(b);
    lemma_count_leading_zeros(n);
    let cz = count_leading_zeros(n) as int;
    assert(n.len() == 64);
    assert forall|i: int| 0 <= i < m.len() implies m[i] < 16 by {
        if cz < 64 {
            assert(m[i] == n.skip(cz)[i]);
            assert(n.skip(cz)[i] == n[cz + i]);
        }
    }
    assert(s[0] == '0');
    assert(s[1] == 'x');
    assert(s.len() >= 3);
    let d = crate::gas::strip_hex_prefix(s);
    assert(d =~= h);
    assert forall|i: int| 0 <= i < d.len() implies crate::hexcode::is_hex_digit(d[i]) by {
        assert(d[i] == crate::hexcode::hex_digit_char(m[i]));
        crate::hexcode::lemma_hex_digit_char(m[i]);
    }
    assert(all_hex_digits(d));
    assert forall|i: int| 0 <= i < d.len() implies nibble_vals_of(d)[i] == m[i] by {
        assert(d[i] == crate::hexcode::hex_digit_char(m[i]));
        crate::hexcode::lemma_hex_digit_char(m[i]);
    }
    assert(nibble_vals_of(d) =~= m);
    crate::hexcode::lemma_bytes_nibbles_inverse(b);
    if cz == 64 {
        assert(m == seq![0u8]);
        assert(m[0] == 0);
        lemma_count_leading_zeros_is(nibble_vals_of(d), 1);
        assert(stripped_nibbles(d) =~= Seq::<u8>::empty());
        assert forall|i: int| 0 <= i < 64 implies pad64(stripped_nibbles(d))[i] == n[i] by {
            assert(n[i] == 0);
        }
        assert(pad64(stripped_nibbles(d)) =~= n);
        assert(bytes_of_nibbles(pad64(stripped_nibbles(d))) == b);
    } else {
        assert(m == n.skip(cz));
        assert(m.len() == 64 - cz);
        assert(m[0] == n.skip(cz)[0]);
        assert(n.skip(cz)[0] == n[cz]);
        assert(n[cz] != 0);
        lemma_count_leading_zeros_is(nibble_vals_of(d), 0);
        assert(stripped_nibbles(d) =~= m);
        assert forall|i: int| 0 <= i < 64 implies pad64(stripped_nibbles(d))[i] == n[i] by {
            if i < cz {
                assert(n[i] == 0);
            } else {
                assert(m[i - cz] == n.skip(cz)[i - cz]);
                assert(n.skip(cz)[i - cz] == n[i]);
            }
        }
        assert(pad64(stripped_nibbles(d)) =~= n);
        assert(bytes_of_nibbles(pad64(stripped_nibbles(d))) == b);
    }
}

} // verus!
