//! Gas estimation domain logic: the transaction value object, its
//! projection into the `eth_estimateGas` parameter object, the full request
//! body, and the decoding of the node's hex-encoded gas quantity.

use vstd::prelude::*;
use vstd::string::*;

use crate::addr::Address;
use crate::addr::address_hex_spec;
use crate::hexcode::hex_chars_0x;
use crate::hexcode::hex_string_of_bytes;
use crate::numeric::U256;
use crate::numeric::u256_from_hex_digits;
use crate::numeric::u256_hex_spec;
use crate::rpc::ClientError;
use crate::rpc::extract_envelope;
use crate::rpc::json_as_string;
use crate::rpc::json_error_message;
use crate::rpc::parse_json;
use crate::rpc::request_body_spec;
use crate::rpc::resolve_envelope;
use crate::rpc::rpc_request_body;
use crate::rpc::string_from_chars;

verus! {

/// A locally constructed transaction, consumed read-only by gas estimation.
///
/// Only `from`, `to`, `value` and `data` are read when estimating gas; the
/// remaining fields are carried for API symmetry with a broader
/// transaction-handling context and are deliberately not sent to the node.
#[derive(Debug)]
pub struct Transaction {
    pub nonce: U256,
    pub gas_price: Option<U256>,
    pub gas_limit: U256,
    pub from: Address,
    pub to: Address,
    pub value: U256,
    pub data: Vec<u8>,
    pub v: u64,
    pub r: U256,
    pub s: U256,
}

impl Transaction {
    /// Well-formed: every 256-bit field holds 32 bytes and both addresses
    /// hold 20.
    pub open spec fn wf(&self) -> bool {
        &&& self.nonce.wf()
        &&& (match self.gas_price {
            Some(g) => g.wf(),
            None => true,
        })
        &&& self.gas_limit.wf()
        &&& self.from.wf()
        &&& self.to.wf()
        &&& self.value.wf()
        &&& self.r.wf()
        &&& self.s.wf()
    }

    /// Whether every field of the transaction is well-formed, decided at
    /// run time.
    pub fn is_well_formed(&self) -> (r: bool)
        ensures
            r == self.wf(),
    {
        let gas_price_ok = match &self.gas_price {
            Some(g) => g.is_well_formed(),
            None => true,
        };
        self.nonce.is_well_formed() && gas_price_ok && self.gas_limit.is_well_formed()
            && self.from.is_well_formed() && self.to.is_well_formed()
            && self.value.is_well_formed() && self.r.is_well_formed() && self.s.is_well_formed()
    }
}

/// The hex payload standing for the call data: `0x` followed by two
/// lowercase digits per byte; the empty payload is exactly `0x`.
pub open spec fn data_payload_spec(data: Seq<u8>) -> Seq<char> {
    seq!['0', 'x'] + hex_string_of_bytes(data)
}

/// The parameter object sent to `eth_estimateGas`: exactly the fields
/// `from`, `to`, `value` and `data`, in that order, each a string.
pub open spec fn gas_params_spec(tx: Transaction) -> Seq<char> {
    "{\"from\":\""@ + address_hex_spec(tx.from@) + "\",\"to\":\""@ + address_hex_spec(tx.to@)
        + "\",\"value\":\""@ + u256_hex_spec(tx.value@) + "\",\"data\":\""@ + data_payload_spec(
        tx.data@,
    ) + "\"}"@
}

/// The `0x`-prefixed lowercase hex rendering of a call data payload.
pub fn data_payload(data: &Vec<u8>) -> (r: String)
    ensures
        r@ == data_payload_spec(data@),
{
    string_from_chars(hex_chars_0x(data))
}

/// Law: for every call data payload, the hex payload sent to the node is
/// `0x`-prefixed and its hex body has even length, two characters per byte;
/// the empty payload encodes to exactly `0x`.
pub proof fn lemma_data_payload_shape(data: Seq<u8>)
    ensures
        data_payload_spec(data).len() == 2 + 2 * data.len(),
        data_payload_spec(data)[0] == '0',
        data_payload_spec(data)[1] == 'x',
        data.len() == 0 ==> data_payload_spec(data) == "0x"@,
{
    reveal_strlit("0x");
    if data.len() == 0 {
        assert(data_payload_spec(data) =~= "0x"@);
    }
}

/// Builds the parameter object for `eth_estimateGas` from a transaction.
pub fn estimate_gas_params(tx: &Transaction) -> (r: String)
    requires
        tx.wf(),
    ensures
        r@ == gas_params_spec(*tx),
{
    let mut out = String::new();
    out.append("{\"from\":\"");
    let from_hex = tx.from.to_hex_string();
    out.append(from_hex.as_str());
    out.append("\",\"to\":\"");
    let to_hex = tx.to.to_hex_string();
    out.append(to_hex.as_str());
    out.append("\",\"value\":\"");
    let value_hex = tx.value.to_hex_string();
    out.append(value_hex.as_str());
    out.append("\",\"data\":\"");
    let data_hex = data_payload(&tx.data);
    out.append(data_hex.as_str());
    out.append("\"}");
    proof {
        assert(out@ =~= gas_params_spec(*tx));
    }
    out
}

/// Builds the complete JSON-RPC request body for `eth_estimateGas`: the
/// parameter object above as the sole element of the positional parameter
/// list, with request id 1.
pub fn estimate_gas_request(tx: &Transaction) -> (r: String)
    requires
        tx.wf(),
    ensures
        r@ == request_body_spec("eth_estimateGas"@, gas_params_spec(*tx)),
{
    let params = estimate_gas_params(tx);
    rpc_request_body("eth_estimateGas", params.as_str())
}

/// Parses a node's gas quantity string: one `0x` prefix is stripped and the
/// remainder is read as a big-endian hexadecimal numeral.  Fails with an
/// `Encoding` error carrying the offending string exactly when the
/// remainder is empty, holds a non-hex character, or overflows 256 bits.
#[verifier::loop_isolation(false)]
pub fn gas_from_hex_string(s: &str) -> (r: Result<U256, ClientError>)
    ensures
        match u256_from_hex_digits(strip_hex_prefix(s@)) {
            Some(b) => (match r {
                Ok(g) => g.wf() && g@ == b,
                Err(_) => false,
            }),
            None => (match r {
                Err(ClientError::Encoding(bad)) => bad@ == s@,
                _ => false,
            }),
        },
{
    let n = s.unicode_len();
    let off: usize = if n >= 2 && s.get_char(0) == '0' && s.get_char(1) == 'x' {
        2
    } else {
        0
    };
    let ghost d = strip_hex_prefix(s@);
    let mut digits: Vec<char> = Vec::new();
    let mut i: usize = off;
    while i < n
        invariant
            off <= i <= n,
            n == s@.len(),
            digits@.len() == i - off,
            forall|j: int| 0 <= j < i - off ==> #[trigger] digits@[j] == s@[off + j],
        decreases n - i,
    {
        digits.push(s.get_char(i));
        i += 1;
    }
    proof {
        assert(digits@ =~= d);
    }
    match U256::from_hex_digits(&digits) {
        Some(g) => Ok(g),
        None => Err(ClientError::Encoding(s.to_owned())),
    }
}

/// Where a gas quantity string starts with `0x`, the digits after it; the
/// whole string otherwise.
pub open spec fn strip_hex_prefix(s: Seq<char>) -> Seq<char> {
    if s.len() >= 2 && s[0] == '0' && s[1] == 'x' {
        s.skip(2)
    } else {
        s
    }
}

/// Decodes a complete `eth_estimateGas` response body.
///
/// The body is parsed as JSON (anything else is a transport-level failure),
/// its envelope is resolved by the transport layer's policy — a present
/// `result` wins, else a present `error` is surfaced with its code and
/// message, else the response counts as empty — and a string result is then
/// parsed as a hex-encoded 256-bit gas quantity.  A result of any other
/// JSON type, or an error object without an integer `code` and a string
/// `message`, does not match the expected envelope shape and is a
/// transport-level failure.
pub fn estimate_gas_response(body: &str) -> (r: Result<U256, ClientError>)
    ensures
        r matches Ok(g) ==> g.wf(),
        (match crate::rpc::json_doc_of(body@) {
            None => (match r {
                Err(ClientError::Transport(_)) => true,
                _ => false,
            }),
            Some(doc) => if crate::rpc::envelope_error_malformed(doc) {
                (match r {
                    Err(ClientError::Transport(_)) => true,
                    _ => false,
                })
            } else {
                match crate::rpc::envelope_result_of(doc) {
                    Some(rv) => (match crate::rpc::json_string_of(rv) {
                        Some(s) => (match u256_from_hex_digits(strip_hex_prefix(s)) {
                            Some(b) => (match r {
                                Ok(g) => g@ == b,
                                _ => false,
                            }),
                            None => (match r {
                                Err(ClientError::Encoding(bad)) => bad@ == s,
                                _ => false,
                            }),
                        }),
                        None => (match r {
                            Err(ClientError::Transport(_)) => true,
                            _ => false,
                        }),
                    }),
                    None => if crate::rpc::envelope_has_error(doc) {
                        (match r {
                            Err(ClientError::RpcProtocol(e)) => e.code
                                == crate::rpc::envelope_error_code(doc) && e.message@
                                == crate::rpc::envelope_error_message(doc),
                            _ => false,
                        })
                    } else {
                        (match r {
                            Err(ClientError::RpcEmptyResponse) => true,
                            _ => false,
                        })
                    },
                }
            },
        }),
{
    let parsed = parse_json(body);
    let v = match parsed {
        Ok(v) => v,
        Err(e) => {
            let m = json_error_message(&e);
            return Err(ClientError::Transport(m));
        },
    };
    let env = match extract_envelope(&v) {
        Ok(env) => env,
        Err(e) => {
            return Err(e);
        },
    };
    match resolve_envelope(env) {
        Ok(rv) => match json_as_string(rv) {
            Some(s) => gas_from_hex_string(s.as_str()),
            None => Err(
                ClientError::Transport(String::from_str("result is not a string")),
            ),
        },
        Err(e) => Err(e),
    }
}

/// Law: the gas quantity string a node echoes for a plain transfer,
/// `0x5208`, decodes to exactly the 256-bit value 21000 — so a response
/// carrying that result yields 21000 whatever transaction was sent, since
/// response decoding takes no part of the transaction.
pub proof fn lemma_plain_transfer_gas_quantity()
    ensures
        u256_from_hex_digits(strip_hex_prefix("0x5208"@)) == Some(
            crate::numeric::u64_be_seq(21000),
        ),
{
    reveal_strlit("0x5208");
    let s = "0x5208"@;
    assert(s.len() == 6);
    assert(s[0] == '0');
    assert(s[1] == 'x');
    let d = strip_hex_prefix(s);
    assert(d.len() == 4);
    assert(d[0] == '5');
    assert(d[1] == '2');
    assert(d[2] == '0');
    assert(d[3] == '8');
    let nv = crate::hexcode::nibble_vals_of(d);
    assert(nv.len() == 4);
    assert(nv[0] == 5);
    assert(nv[1] == 2);
    assert(nv[2] == 0);
    assert(nv[3] == 8);
    assert forall|i: int| 0 <= i < 4 implies crate::hexcode::is_hex_digit(d[i]) by {
        assert(i == 0 || i == 1 || i == 2 || i == 3);
    }
    assert(crate::hexcode::all_hex_digits(d));
    crate::hexcode::lemma_count_leading_zeros_is(nv, 0);
    let t = crate::numeric::stripped_nibbles(d);
    assert(t =~= nv);
    let p = crate::numeric::pad64(t);
    assert(crate::numeric::pow256(0) == 1);
    assert(crate::numeric::pow256(1) == 256);
    assert(crate::numeric::pow256(2) == 65536);
    assert(crate::numeric::pow256(3) == 16777216);
    assert(crate::numeric::pow256(4) == 4294967296);
    assert(crate::numeric::pow256(5) == 1099511627776);
    assert(crate::numeric::pow256(6) == 281474976710656);
    assert(crate::numeric::pow256(7) == 72057594037927936);
    assert(crate::numeric::u64_be_byte(21000, 0) == 8);
    assert(crate::numeric::u64_be_byte(21000, 1) == 82);
    assert(crate::numeric::u64_be_byte(21000, 2) == 0);
    assert(crate::numeric::u64_be_byte(21000, 3) == 0);
    assert(crate::numeric::u64_be_byte(21000, 4) == 0);
    assert(crate::numeric::u64_be_byte(21000, 5) == 0);
    assert(crate::numeric::u64_be_byte(21000, 6) == 0) by {
        vstd::arithmetic::div_mod::lemma_basic_div(21000, crate::numeric::pow256(6) as int);
    }
    assert(crate::numeric::u64_be_byte(21000, 7) == 0) by {
        vstd::arithmetic::div_mod::lemma_basic_div(21000, crate::numeric::pow256(7) as int);
    }
    assert forall|i: int| 0 <= i < 32 implies crate::hexcode::bytes_of_nibbles(p)[i]
        == crate::numeric::u64_be_seq(21000)[i] by {
        assert(p[2 * i] == (if 2 * i < 60 { 0u8 } else { nv[2 * i - 60] }));
        assert(p[2 * i + 1] == (if 2 * i + 1 < 60 { 0u8 } else { nv[2 * i + 1 - 60] }));
        if i < 30 {
            assert(crate::hexcode::bytes_of_nibbles(p)[i] == 0);
        } else if i == 30 {
            assert(crate::hexcode::bytes_of_nibbles(p)[i] == 82);
        } else {
            assert(i == 31);
            assert(crate::hexcode::bytes_of_nibbles(p)[i] == 8);
        }
    }
    assert(crate::hexcode::bytes_of_nibbles(p) =~= crate::numeric::u64_be_seq(21000));
}

} // verus!
