//! A 20-byte account address with its canonical `0x`-prefixed, 40-digit
//! lowercase hexadecimal string form, and the case-insensitive parse that
//! accepts checksummed renderings as well.

use vstd::prelude::*;
use vstd::string::*;

use crate::hexcode::all_hex_digits;
use crate::hexcode::bytes_of_nibbles;
use crate::hexcode::hex_chars_0x;
use crate::hexcode::hex_string_of_bytes;
use crate::hexcode::hex_val_exec;
use crate::hexcode::is_hex_digit;
use crate::hexcode::lemma_bytes_nibbles_inverse;
use crate::hexcode::lemma_hex_digit_char;
use crate::hexcode::lemma_nibbles_bound;
use crate::hexcode::nibble_vals_of;
use crate::hexcode::nibbles_of_bytes;
use crate::numeric::eq_bytes;
use crate::rpc::string_from_chars;

verus! {

/// A 20-byte address.
#[derive(Debug)]
pub struct Address {
    bytes: Vec<u8>,
}

/// The canonical string form of an address: `0x` followed by 40 lowercase
/// hexadecimal digits.
pub open spec fn address_hex_spec(b: Seq<u8>) -> Seq<char> {
    seq!['0', 'x'] + hex_string_of_bytes(b)
}

/// What an address string denotes: `Some` of the 20 bytes exactly when the
/// string is `0x` followed by 40 hexadecimal digits of either case.
pub open spec fn parse_address_spec(s: Seq<char>) -> Option<Seq<u8>> {
    if s.len() == 42 && s[0] == '0' && s[1] == 'x' && all_hex_digits(s.skip(2)) {
        Some(bytes_of_nibbles(nibble_vals_of(s.skip(2))))
    } else {
        None
    }
}

impl View for Address {
    type V = Seq<u8>;

    closed spec fn view(&self) -> Seq<u8> {
        self.bytes@
    }
}

impl Address {
    /// Well-formed: exactly 20 bytes.
    pub open spec fn wf(&self) -> bool {
        self@.len() == 20
    }

    /// The address made of the given 20 bytes.
    pub fn from_bytes(bytes: Vec<u8>) -> (r: Address)
        requires
            bytes@.len() == 20,
        ensures
            r.wf(),
            r@ == bytes@,
    {
        Address { bytes }
    }

    /// Whether the address holds exactly 20 bytes, decided at run time.
    pub fn is_well_formed(&self) -> (r: bool)
        ensures
            r == self.wf(),
    {
        self.bytes.len() == 20
    }

    /// The canonical `0x`-prefixed lowercase rendering of the address.
    pub fn to_hex_string(&self) -> (r: String)
        requires
            self.wf(),
        ensures
            r@ == address_hex_spec(self@),
    {
        string_from_chars(hex_chars_0x(&self.bytes))
    }

    /// Parses the canonical string form, accepting digits of either case.
    #[verifier::loop_isolation(false)]
    pub fn parse(s: &str) -> (r: Option<Address>)
        ensures
            match parse_address_spec(s@) {
                Some(b) => r matches Some(a) && a.wf() && a@ == b,
                None => r is None,
            },
    {
        let n = s.unicode_len();
        if n != 42 {
            return None;
        }
        if s.get_char(0) != '0' || s.get_char(1) != 'x' {
            return None;
        }
        let mut nibs: Vec<u8> = Vec::new();
        let mut i: usize = 2;
        while i < 42
            invariant
                2 <= i <= 42,
                s@.len() == 42,
                nibs@.len() == i - 2,
                forall|j: int| 0 <= j < i - 2 ==> is_hex_digit(#[trigger] s@[2 + j]),
                forall|j: int| 0 <= j < i - 2 ==> #[trigger] nibs@[j] == crate::hexcode::hex_val(
                    s@[2 + j],
                ) && nibs@[j] < 16,
            decreases 42 - i,
        {
            match hex_val_exec(s.get_char(i)) {
                Some(v) => {
                    proof {
                        assert(crate::hexcode::hex_val(s@[i as int]) < 16);
                    }
                    nibs.push(v);
                },
                None => {
                    proof {
                        assert(s@.skip(2)[i - 2] == s@[i as int]);
                        assert(!is_hex_digit(s@.skip(2)[i - 2]));
                    }
                    return None;
                },
            }
            i += 1;
        }
        proof {
            assert(nibs@ =~= nibble_vals_of(s@.skip(2)));
            assert forall|j: int| 0 <= j < 40 implies is_hex_digit(s@.skip(2)[j]) by {
                assert(s@.skip(2)[j] == s@[2 + j]);
            }
        }
        let mut bytes: Vec<u8> = Vec::new();
        let mut t: usize = 0;
        while t < 20
            invariant
                0 <= t <= 20,
                nibs@.len() == 40,
                forall|j: int| 0 <= j < 40 ==> nibs@[j] < 16,
                bytes@.len() == t,
                forall|j: int| 0 <= j < t ==> bytes@[j] == bytes_of_nibbles(nibs@)[j],
            decreases 20 - t,
        {
            bytes.push(nibs[2 * t] * 16 + nibs[2 * t + 1]);
            t += 1;
        }
        proof {
            assert(bytes@ =~= bytes_of_nibbles(nibble_vals_of(s@.skip(2))));
        }
        Some(Address { bytes })
    }

    /// The 20 bytes of the address.
    #[verifier::loop_isolation(false)]
    pub fn to_bytes(&self) -> (r: Vec<u8>)
        requires
            self.wf(),
        ensures
            r@ == self@,
    {
        let mut r: Vec<u8> = Vec::new();
        let mut i: usize = 0;
        while i < self.bytes.len()
            invariant
                0 <= i <= self.bytes@.len(),
                r@ == self.bytes@.take(i as int),
            decreases self.bytes@.len() - i,
        {
            r.push(self.bytes[i]);
            proof {
                assert(r@ =~= self.bytes@.take(i + 1));
            }
            i += 1;
        }
        proof {
            assert(r@ =~= self@);
        }
        r
    }
}

impl PartialEq for Address {
    fn eq(&self, other: &Address) -> (r: bool) {
        eq_bytes(&self.bytes, &other.bytes)
    }
}

impl vstd::std_specs::cmp::PartialEqSpecImpl for Address {
    open spec fn obeys_eq_spec() -> bool {
        true
    }

    open spec fn eq_spec(&self, other: &Address) -> bool {
        self@ == other@
    }
}

/// Law: encoding an address to its canonical string and decoding it back
/// yields the original 20 bytes.
pub proof fn lemma_address_hex_round_trip(b: Seq<u8>)
    requires
        b.len() == 20,
    ensures
        parse_address_spec(address_hex_spec(b)) == Some(b),
{
    let s = address_hex_spec(b);
    let h = hex_string_of_bytes(b);
    let n = nibbles_of_bytes(b);
    lemma_nibbles_bound(b);
    assert(s.len() == 42);
    assert(s[0] == '0');
    assert(s[1] == 'x');
    assert(s.skip(2) =~= h);
    assert forall|i: int| 0 <= i < h.len() implies is_hex_digit(h[i]) by {
        assert(h[i] == crate::hexcode::hex_digit_char(n[i]));
        lemma_hex_digit_char(n[i]);
    }
    assert(all_hex_digits(s.skip(2)));
    assert forall|i: int| 0 <= i < h.len() implies nibble_vals_of(h)[i] == n[i] by {
        assert(h[i] == crate::hexcode::hex_digit_char(n[i]));
        lemma_hex_digit_char(n[i]);
    }
    assert(nibble_vals_of(s.skip(2)) =~= n);
    lemma_bytes_nibbles_inverse(b);
}

} // verus!
