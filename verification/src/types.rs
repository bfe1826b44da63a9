//! The transaction data model as fetched over JSON-RPC, and the codec
//! that re-encodes a fetched transaction for submission: unsigned
//! parameter sets, and fully RLP-encoded raw envelopes (legacy or
//! fee-market), with the original signature reattached and the chain id
//! overridden.

use vstd::prelude::*;
use crate::format::{is_hex_digit, hex_digit_value, strip_hex_prefix, spec_parse_hex, hex_to_decimal, spec_dec_str, decimal_string, digit_char, digit_str};
use crate::rlp::{be_bytes, rlp_str, rlp_list, be_bytes_of_u64, rlp_encode_bytes, rlp_wrap_list};

verus! {

/// A transaction as a block carries it: every field still in the hex
/// string form the node sent.
#[allow(non_snake_case)]
#[derive(Debug, Clone)]
pub struct Transaction {
    pub blockHash: String,
    pub blockNumber: String,
    pub hash: String,
    pub accessList: Option<Vec<String>>,
    pub chainId: Option<String>,
    pub from: String,
    pub gas: String,
    pub gasPrice: String,
    pub input: String,
    pub maxFeePerGas: Option<String>,
    pub maxPriorityFeePerGas: Option<String>,
    pub nonce: String,
    pub r: String,
    pub s: String,
    pub to: Option<String>,
    pub transactionIndex: String,
    pub txType: String,
    pub v: String,
    pub value: String,
}

/// The unsigned parameter set the bypass submission mode sends.
#[allow(non_snake_case)]
#[derive(Debug, Clone)]
pub struct TransactionParams {
    pub from: String,
    pub to: Option<String>,
    pub value: String,
    pub gas: String,
    pub gasPrice: String,
    pub data: String,
    pub nonce: Option<String>,
    pub chainId: Option<String>,
}

/// The call object of `eth_call`: a null `from`, target and calldata.
#[derive(Debug, Clone)]
pub struct CallParams {
    pub from: Option<String>,
    pub to: String,
    pub data: String,
}

/// Why a transaction could not be re-encoded: a field that is not the
/// hex string its role requires.
#[derive(Debug, Clone, Copy, PartialEq, Eq, Structural)]
pub enum EncodeError {
    InvalidHex,
}

pub open spec fn all_hex(s: Seq<char>) -> bool {
    forall|i: int| 0 <= i < s.len() ==> is_hex_digit(#[trigger] s[i])
}

/// The bytes of an even-length hex digit string, two digits a byte.
pub open spec fn hex_pair_bytes(t: Seq<char>) -> Seq<u8>
    decreases t.len(),
{
    if t.len() < 2 {
        Seq::empty()
    } else {
        seq![(hex_digit_value(t[0]) * 16 + hex_digit_value(t[1])) as u8] + hex_pair_bytes(t.skip(2))
    }
}

/// The digit string padded to even length with a leading zero.
pub open spec fn pad_even(t: Seq<char>) -> Seq<char> {
    if t.len() % 2 == 1 {
        seq!['0'] + t
    } else {
        t
    }
}

/// Leading zero bytes removed, as RLP quantities require.
pub open spec fn trim_zero_bytes(b: Seq<u8>) -> Seq<u8>
    decreases b.len(),
{
    if b.len() > 0 && b[0] == 0 {
        trim_zero_bytes(b.skip(1))
    } else {
        b
    }
}

/// A quantity field: an optional `0x`, then 1 to 64 hex digits.
pub open spec fn valid_quantity(s: Seq<char>) -> bool {
    let t = strip_hex_prefix(s);
    1 <= t.len() <= 64 && all_hex(t)
}

/// The minimal big-endian bytes of a quantity field's value.
pub open spec fn quantity_bytes(s: Seq<char>) -> Seq<u8> {
    trim_zero_bytes(hex_pair_bytes(pad_even(strip_hex_prefix(s))))
}

/// An address field: an optional `0x`, then exactly 40 hex digits.
pub open spec fn valid_address_field(s: Seq<char>) -> bool {
    let t = strip_hex_prefix(s);
    t.len() == 40 && all_hex(t)
}

/// The 20 bytes of an address field.
pub open spec fn address_bytes(s: Seq<char>) -> Seq<u8> {
    hex_pair_bytes(strip_hex_prefix(s))
}

/// A data field: an optional `0x`, then an even number of hex digits,
/// possibly none.
pub open spec fn valid_data(s: Seq<char>) -> bool {
    let t = strip_hex_prefix(s);
    t.len() % 2 == 0 && all_hex(t)
}

/// The bytes of a data field, kept exactly as given.
pub open spec fn data_bytes(s: Seq<char>) -> Seq<u8> {
    hex_pair_bytes(strip_hex_prefix(s))
}

/// The RLP item of the `to` field: the 20 address bytes, or the empty
/// string item for contract creation.
pub open spec fn to_item(to: Option<String>) -> Seq<u8> {
    match to {
        Some(a) => rlp_str(address_bytes(a@)),
        None => rlp_str(Seq::empty()),
    }
}

/// The lower-case hex rendering of a byte string, two digits a byte.
pub open spec fn hex_of_bytes(b: Seq<u8>) -> Seq<char>
    decreases b.len(),
{
    if b.len() == 0 {
        Seq::empty()
    } else {
        seq![digit_char((b[0] / 16) as nat), digit_char((b[0] % 16) as nat)] + hex_of_bytes(
            b.skip(1),
        )
    }
}

/// Whether every field a legacy envelope reads is well formed.
pub open spec fn legacy_fields_valid(tx: Transaction) -> bool {
    &&& valid_quantity(tx.nonce@)
    &&& valid_quantity(tx.gasPrice@)
    &&& valid_quantity(tx.gas@)
    &&& (match tx.to {
        Some(a) => valid_address_field(a@),
        None => true,
    })
    &&& valid_quantity(tx.value@)
    &&& valid_data(tx.input@)
    &&& spec_parse_hex(tx.v@) is Ok
    &&& valid_quantity(tx.r@)
    &&& valid_quantity(tx.s@)
}

/// The item concatenation of the signed legacy envelope: nonce,
/// gasPrice, gas, to, value, data, and the original signature.
pub open spec fn legacy_payload(tx: Transaction) -> Seq<u8> {
    rlp_str(quantity_bytes(tx.nonce@)) + rlp_str(quantity_bytes(tx.gasPrice@)) + rlp_str(
        quantity_bytes(tx.gas@),
    ) + to_item(tx.to) + rlp_str(quantity_bytes(tx.value@)) + rlp_str(data_bytes(tx.input@))
        + rlp_str(be_bytes(spec_parse_hex(tx.v@)->Ok_0 as nat)) + rlp_str(quantity_bytes(tx.r@))
        + rlp_str(quantity_bytes(tx.s@))
}

/// The raw submission text of a signed legacy envelope.
pub open spec fn spec_legacy_hex(tx: Transaction) -> Seq<char> {
    seq!['0', 'x'] + hex_of_bytes(rlp_list(legacy_payload(tx)))
}

/// Whether every field a fee-market envelope reads is well formed.
pub open spec fn eip1559_fields_valid(tx: Transaction) -> bool {
    &&& tx.maxFeePerGas is Some && valid_quantity(tx.maxFeePerGas->0@)
    &&& tx.maxPriorityFeePerGas is Some && valid_quantity(tx.maxPriorityFeePerGas->0@)
    &&& valid_quantity(tx.nonce@)
    &&& valid_quantity(tx.gas@)
    &&& (match tx.to {
        Some(a) => valid_address_field(a@),
        None => true,
    })
    &&& valid_quantity(tx.value@)
    &&& valid_data(tx.input@)
    &&& spec_parse_hex(tx.v@) is Ok
    &&& valid_quantity(tx.r@)
    &&& valid_quantity(tx.s@)
}

/// The item concatenation of the signed fee-market envelope: the
/// destination chain id, nonce, the two fee fields, gas, to, value,
/// data, an empty access list, and the original signature.
pub open spec fn eip1559_payload(tx: Transaction, chain_id: u64) -> Seq<u8> {
    rlp_str(be_bytes(chain_id as nat)) + rlp_str(quantity_bytes(tx.nonce@)) + rlp_str(
        quantity_bytes(tx.maxPriorityFeePerGas->0@),
    ) + rlp_str(quantity_bytes(tx.maxFeePerGas->0@)) + rlp_str(quantity_bytes(tx.gas@)) + to_item(
        tx.to,
    ) + rlp_str(quantity_bytes(tx.value@)) + rlp_str(data_bytes(tx.input@)) + rlp_list(Seq::empty())
        + rlp_str(be_bytes(spec_parse_hex(tx.v@)->Ok_0 as nat)) + rlp_str(quantity_bytes(tx.r@))
        + rlp_str(quantity_bytes(tx.s@))
}

/// The raw submission text of a signed fee-market envelope: the type
/// byte `0x02`, then the RLP list.
pub open spec fn spec_eip1559_hex(tx: Transaction, chain_id: u64) -> Seq<char> {
    seq!['0', 'x'] + hex_of_bytes(seq![2u8] + rlp_list(eip1559_payload(tx, chain_id)))
}

/// The digit's value, or none when `c` is not a hex digit.
fn hex_digit_of(c: char) -> (r: Option<u8>)
    ensures
        r is Some <==> is_hex_digit(c),
        r is Some ==> r->0 == hex_digit_value(c),
{
    if '0' <= c && c <= '9' {
        Some((c as u32 - '0' as u32) as u8)
    } else if 'a' <= c && c <= 'f' {
        Some((c as u32 - 'a' as u32 + 10) as u8)
    } else if 'A' <= c && c <= 'F' {
        Some((c as u32 - 'A' as u32 + 10) as u8)
    } else {
        None
    }
}

/// Decodes the hex digits of `s` from `start` on into bytes; there must
/// be an even number of them.
fn parse_hex_pairs(s: &str, start: usize) -> (r: Option<Vec<u8>>)
    requires
        start <= s@.len(),
    ensures
        ({
            let t = s@.skip(start as int);
            &&& r is Some <==> (t.len() % 2 == 0 && all_hex(t))
            &&& r is Some ==> r->0@ == hex_pair_bytes(t)
        }),
{
    let n = s.unicode_len();
    let ghost t = s@.skip(start as int);
    if (n - start) % 2 == 1 {
        return None;
    }
    let mut out: Vec<u8> = Vec::new();
    let mut i = start;
    proof {
        assert(t.skip(0) =~= t);
        assert(out@ + hex_pair_bytes(t) =~= hex_pair_bytes(t));
    }
    while i < n
        invariant
            start <= i <= n,
            n == s@.len(),
            t == s@.skip(start as int),
            (i - start) % 2 == 0,
            n - start == t.len() && t.len() % 2 == 0,
            forall|k: int| 0 <= k < i - start ==> is_hex_digit(#[trigger] t[k]),
            hex_pair_bytes(t) == out@ + hex_pair_bytes(t.skip(i - start)),
        decreases n - i,
    {
        let ghost cur = t.skip(i - start);
        let c1 = s.get_char(i);
        let c2 = s.get_char(i + 1);
        proof {
            assert(cur[0] == c1 && cur[1] == c2);
            assert(cur.skip(2) =~= t.skip(i + 2 - start));
        }
        let d1 = match hex_digit_of(c1) {
            Some(d) => d,
            None => {
                return None;
            },
        };
        let d2 = match hex_digit_of(c2) {
            Some(d) => d,
            None => {
                return None;
            },
        };
        let ghost pre = out@;
        out.push(d1 * 16 + d2);
        proof {
            assert(hex_pair_bytes(cur) == seq![(hex_digit_value(c1) * 16 + hex_digit_value(
                c2,
            )) as u8] + hex_pair_bytes(cur.skip(2)));
            assert(pre + hex_pair_bytes(cur) =~= out@ + hex_pair_bytes(t.skip(i + 2 - start)));
        }
        i = i + 2;
    }
    proof {
        assert(t.skip(t.len() as int) =~= Seq::<char>::empty());
        assert(out@ + hex_pair_bytes(t.skip(t.len() as int)) =~= out@);
    }
    Some(out)
}

proof fn lemma_trim_zero_skip(b: Seq<u8>, k: int)
    requires
        0 <= k <= b.len(),
        forall|t: int| 0 <= t < k ==> b[t] == 0,
        k == b.len() || b[k] != 0,
    ensures
        trim_zero_bytes(b) == b.skip(k),
    decreases k,
{
    if k == 0 {
        assert(b.skip(0) =~= b);
    } else {
        assert(b[0] == 0);
        let t = b.skip(1);
        assert(forall|j: int| 0 <= j < k - 1 ==> t[j] == 0);
        lemma_trim_zero_skip(t, k - 1);
        assert(t.skip(k - 1) =~= b.skip(k));
    }
}

/// Removes leading zero bytes.
fn trim_leading_zeros(b: &Vec<u8>) -> (r: Vec<u8>)
    ensures
        r@ == trim_zero_bytes(b@),
{
    let n = b.len();
    let mut k: usize = 0;
    while k < n && b[k] == 0
        invariant
            k <= n,
            n == b@.len(),
            forall|t: int| 0 <= t < k ==> b@[t] == 0,
        decreases n - k,
    {
        k = k + 1;
    }
    proof {
        lemma_trim_zero_skip(b@, k as int);
    }
    let mut out: Vec<u8> = Vec::new();
    let mut i = k;
    while i < n
        invariant
            k <= i <= n,
            n == b@.len(),
            out@ == b@.subrange(k as int, i as int),
        decreases n - i,
    {
        out.push(b[i]);
        proof {
            assert(out@ =~= b@.subrange(k as int, i + 1));
        }
        i = i + 1;
    }
    proof {
        assert(b@.subrange(k as int, n as int) =~= b@.skip(k as int));
    }
    out
}

/// Where the digit region of a field starts: after a `0x` prefix, or at
/// the front.
fn hex_region_start(s: &str) -> (r: usize)
    ensures
        r <= s@.len(),
        s@.skip(r as int) == strip_hex_prefix(s@),
{
    let n = s.unicode_len();
    if n >= 2 && s.get_char(0) == '0' && s.get_char(1) == 'x' {
        2
    } else {
        proof {
            assert(s@.skip(0) =~= s@);
        }
        0
    }
}

/// Decodes a quantity field to its minimal big-endian bytes.
fn parse_quantity(s: &str) -> (r: Option<Vec<u8>>)
    ensures
        r is Some <==> valid_quantity(s@),
        r is Some ==> r->0@ == quantity_bytes(s@),
{
    let n = s.unicode_len();
    let start = hex_region_start(s);
    let ghost t = strip_hex_prefix(s@);
    let m = n - start;
    if m == 0 || m > 64 {
        return None;
    }
    let raw = if m % 2 == 1 {
        let c = s.get_char(start);
        proof {
            assert(t[0] == c);
            assert(s@.skip(start + 1) =~= t.skip(1));
        }
        let d = match hex_digit_of(c) {
            Some(d) => d,
            None => {
                return None;
            },
        };
        let rest = match parse_hex_pairs(s, start + 1) {
            Some(v) => v,
            None => {
                proof {
                    assert(t.skip(1).len() % 2 == 0);
                    assert(!all_hex(t.skip(1)));
                    let k = choose|k: int|
                        0 <= k < t.skip(1).len() && !is_hex_digit(t.skip(1)[k]);
                    assert(t[k + 1] == t.skip(1)[k]);
                    assert(!all_hex(t));
                }
                return None;
            },
        };
        let mut out: Vec<u8> = Vec::new();
        out.push(d);
        out.extend_from_slice(rest.as_slice());
        proof {
            let p = pad_even(t);
            assert(p == seq!['0'] + t);
            assert(p[0] == '0' && p[1] == c);
            assert(p.skip(2) =~= t.skip(1));
            assert(hex_digit_value('0') == 0);
            assert(hex_pair_bytes(p) == seq![(hex_digit_value('0') * 16 + hex_digit_value(
                p[1],
            )) as u8] + hex_pair_bytes(p.skip(2)));
            assert(out@ =~= hex_pair_bytes(p));
            assert(all_hex(t.skip(1)));
            assert forall|k: int| 0 <= k < t.len() implies is_hex_digit(#[trigger] t[k]) by {
                if k > 0 {
                    assert(t[k] == t.skip(1)[k - 1]);
                }
            }
        }
        out
    } else {
        let ghost p = pad_even(t);
        proof {
            assert(p == t);
        }
        match parse_hex_pairs(s, start) {
            Some(v) => v,
            None => {
                return None;
            },
        }
    };
    Some(trim_leading_zeros(&raw))
}

/// Decodes an address field to its 20 bytes.
fn parse_address_field(s: &str) -> (r: Option<Vec<u8>>)
    ensures
        r is Some <==> valid_address_field(s@),
        r is Some ==> r->0@ == address_bytes(s@),
{
    let n = s.unicode_len();
    let start = hex_region_start(s);
    if n - start != 40 {
        return None;
    }
    parse_hex_pairs(s, start)
}

/// Decodes a data field to its bytes, which may be none.
fn parse_data_field(s: &str) -> (r: Option<Vec<u8>>)
    ensures
        r is Some <==> valid_data(s@),
        r is Some ==> r->0@ == data_bytes(s@),
{
    let start = hex_region_start(s);
    parse_hex_pairs(s, start)
}

/// Renders bytes as lower-case hex, two digits a byte.
fn hex_string_of_bytes(b: &Vec<u8>) -> (r: String)
    ensures
        r@ == hex_of_bytes(b@),
{
    let n = b.len();
    let mut out = String::new();
    let mut i: usize = 0;
    proof {
        assert(b@.skip(0) =~= b@);
    }
    while i < n
        invariant
            i <= n,
            n == b@.len(),
            out@ + hex_of_bytes(b@.skip(i as int)) == hex_of_bytes(b@),
        decreases n - i,
    {
        let ghost pre = out@;
        let ghost cur = b@.skip(i as int);
        let x = b[i];
        proof {
            assert(cur[0] == x);
            assert(cur.skip(1) =~= b@.skip(i + 1));
        }
        out.append(digit_str((x / 16) as usize));
        out.append(digit_str((x % 16) as usize));
        proof {
            assert(out@ =~= pre + seq![digit_char((x / 16) as nat), digit_char((x % 16) as nat)]);
            assert(pre + hex_of_bytes(cur) =~= out@ + hex_of_bytes(b@.skip(i + 1)));
        }
        i = i + 1;
    }
    proof {
        assert(b@.skip(n as int) =~= Seq::<u8>::empty());
        assert(out@ + hex_of_bytes(b@.skip(n as int)) =~= out@);
    }
    out
}

impl Transaction {
    /// Re-encodes this transaction as a raw signed envelope, legacy or
    /// fee-market by the presence of the fee fields, hex with a `0x`.
    pub fn rlp_serialize_tx(&self, chain_id: u64) -> (r: Result<String, EncodeError>)
        ensures
            self.maxFeePerGas is Some ==> (r is Ok <==> eip1559_fields_valid(*self)) && (r is Ok
                ==> r->Ok_0@ == spec_eip1559_hex(*self, chain_id)),
            self.maxFeePerGas is None ==> (r is Ok <==> legacy_fields_valid(*self)) && (r is Ok
                ==> r->Ok_0@ == spec_legacy_hex(*self)),
    {
        if self.maxFeePerGas.is_some() {
            self.rlp_serialize_eip1559(chain_id)
        } else {
            self.rlp_serialize_legacy()
        }
    }

    /// Re-encodes this transaction as a signed legacy envelope.
    fn rlp_serialize_legacy(&self) -> (r: Result<String, EncodeError>)
        ensures
            r is Ok <==> legacy_fields_valid(*self),
            r is Ok ==> r->Ok_0@ == spec_legacy_hex(*self),
    {
        let nonce = match parse_quantity(self.nonce.as_str()) {
            Some(v) => v,
            None => {
                return Err(EncodeError::InvalidHex);
            },
        };
        let gas_price = match parse_quantity(self.gasPrice.as_str()) {
            Some(v) => v,
            None => {
                return Err(EncodeError::InvalidHex);
            },
        };
        let gas = match parse_quantity(self.gas.as_str()) {
            Some(v) => v,
            None => {
                return Err(EncodeError::InvalidHex);
            },
        };
        let to = match &self.to {
            Some(a) => match parse_address_field(a.as_str()) {
                Some(v) => v,
                None => {
                    return Err(EncodeError::InvalidHex);
                },
            },
            None => Vec::new(),
        };
        let value = match parse_quantity(self.value.as_str()) {
            Some(v) => v,
            None => {
                return Err(EncodeError::InvalidHex);
            },
        };
        let data = match parse_data_field(self.input.as_str()) {
            Some(v) => v,
            None => {
                return Err(EncodeError::InvalidHex);
            },
        };
        let v_val = match hex_to_decimal(self.v.as_str()) {
            Ok(v) => v,
            Err(_) => {
                return Err(EncodeError::InvalidHex);
            },
        };
        let sig_r = match parse_quantity(self.r.as_str()) {
            Some(v) => v,
            None => {
                return Err(EncodeError::InvalidHex);
            },
        };
        let sig_s = match parse_quantity(self.s.as_str()) {
            Some(v) => v,
            None => {
                return Err(EncodeError::InvalidHex);
            },
        };
        let v_bytes = be_bytes_of_u64(v_val);
        let mut payload: Vec<u8> = Vec::new();
        let e = rlp_encode_bytes(&nonce);
        payload.extend_from_slice(e.as_slice());
        let e = rlp_encode_bytes(&gas_price);
        payload.extend_from_slice(e.as_slice());
        let e = rlp_encode_bytes(&gas);
        payload.extend_from_slice(e.as_slice());
        let e = rlp_encode_bytes(&to);
        payload.extend_from_slice(e.as_slice());
        let e = rlp_encode_bytes(&value);
        payload.extend_from_slice(e.as_slice());
        let e = rlp_encode_bytes(&data);
        payload.extend_from_slice(e.as_slice());
        let e = rlp_encode_bytes(&v_bytes);
        payload.extend_from_slice(e.as_slice());
        let e = rlp_encode_bytes(&sig_r);
        payload.extend_from_slice(e.as_slice());
        let e = rlp_encode_bytes(&sig_s);
        payload.extend_from_slice(e.as_slice());
        proof {
            assert(payload@ =~= legacy_payload(*self));
        }
        let wrapped = rlp_wrap_list(&payload);
        let hex = hex_string_of_bytes(&wrapped);
        proof {
            reveal_strlit("0x");
        }
        let mut out = String::from_str("0x");
        out.append(hex.as_str());
        proof {
            assert(out@ =~= spec_legacy_hex(*self));
        }
        Ok(out)
    }

    /// Re-encodes this transaction as a signed fee-market envelope with
    /// an empty access list, overriding the chain id.
    fn rlp_serialize_eip1559(&self, chain_id: u64) -> (r: Result<String, EncodeError>)
        requires
            self.maxFeePerGas is Some,
        ensures
            r is Ok <==> eip1559_fields_valid(*self),
            r is Ok ==> r->Ok_0@ == spec_eip1559_hex(*self, chain_id),
    {
        let max_prio = match &self.maxPriorityFeePerGas {
            Some(x) => match parse_quantity(x.as_str()) {
                Some(v) => v,
                None => {
                    return Err(EncodeError::InvalidHex);
                },
            },
            None => {
                return Err(EncodeError::InvalidHex);
            },
        };
        let max_fee = match &self.maxFeePerGas {
            Some(x) => match parse_quantity(x.as_str()) {
                Some(v) => v,
                None => {
                    return Err(EncodeError::InvalidHex);
                },
            },
            None => {
                return Err(EncodeError::InvalidHex);
            },
        };
        let nonce = match parse_quantity(self.nonce.as_str()) {
            Some(v) => v,
            None => {
                return Err(EncodeError::InvalidHex);
            },
        };
        let gas = match parse_quantity(self.gas.as_str()) {
            Some(v) => v,
            None => {
                return Err(EncodeError::InvalidHex);
            },
        };
        let to = match &self.to {
            Some(a) => match parse_address_field(a.as_str()) {
                Some(v) => v,
                None => {
                    return Err(EncodeError::InvalidHex);
                },
            },
            None => Vec::new(),
        };
        let value = match parse_quantity(self.value.as_str()) {
            Some(v) => v,
            None => {
                return Err(EncodeError::InvalidHex);
            },
        };
        let data = match parse_data_field(self.input.as_str()) {
            Some(v) => v,
            None => {
                return Err(EncodeError::InvalidHex);
            },
        };
        let v_val = match hex_to_decimal(self.v.as_str()) {
            Ok(v) => v,
            Err(_) => {
                return Err(EncodeError::InvalidHex);
            },
        };
        let sig_r = match parse_quantity(self.r.as_str()) {
            Some(v) => v,
            None => {
                return Err(EncodeError::InvalidHex);
            },
        };
        let sig_s = match parse_quantity(self.s.as_str()) {
            Some(v) => v,
            None => {
                return Err(EncodeError::InvalidHex);
            },
        };
        let chain_bytes = be_bytes_of_u64(chain_id);
        let v_bytes = be_bytes_of_u64(v_val);
        let empty_list: Vec<u8> = Vec::new();
        let mut payload: Vec<u8> = Vec::new();
        let e = rlp_encode_bytes(&chain_bytes);
        payload.extend_from_slice(e.as_slice());
        let e = rlp_encode_bytes(&nonce);
        payload.extend_from_slice(e.as_slice());
        let e = rlp_encode_bytes(&max_prio);
        payload.extend_from_slice(e.as_slice());
        let e = rlp_encode_bytes(&max_fee);
        payload.extend_from_slice(e.as_slice());
        let e = rlp_encode_bytes(&gas);
        payload.extend_from_slice(e.as_slice());
        let e = rlp_encode_bytes(&to);
        payload.extend_from_slice(e.as_slice());
        let e = rlp_encode_bytes(&value);
        payload.extend_from_slice(e.as_slice());
        let e = rlp_encode_bytes(&data);
        payload.extend_from_slice(e.as_slice());
        let e = rlp_wrap_list(&empty_list);
        payload.extend_from_slice(e.as_slice());
        let e = rlp_encode_bytes(&v_bytes);
        payload.extend_from_slice(e.as_slice());
        let e = rlp_encode_bytes(&sig_r);
        payload.extend_from_slice(e.as_slice());
        let e = rlp_encode_bytes(&sig_s);
        payload.extend_from_slice(e.as_slice());
        proof {
            assert(payload@ =~= eip1559_payload(*self, chain_id));
        }
        let wrapped = rlp_wrap_list(&payload);
        let mut envelope: Vec<u8> = Vec::new();
        envelope.push(2u8);
        envelope.extend_from_slice(wrapped.as_slice());
        proof {
            assert(envelope@ =~= seq![2u8] + rlp_list(eip1559_payload(*self, chain_id)));
        }
        let hex = hex_string_of_bytes(&envelope);
        proof {
            reveal_strlit("0x");
        }
        let mut out = String::from_str("0x");
        out.append(hex.as_str());
        proof {
            assert(out@ =~= spec_eip1559_hex(*self, chain_id));
        }
        Ok(out)
    }

    /// Copies the fields of this transaction into the unsigned parameter
    /// set, overriding the chain id with the destination's and omitting
    /// the signature entirely.
    pub fn to_unsigned_params(&self, chain_id: u64) -> (r: TransactionParams)
        ensures
            r.from@ == self.from@,
            r.to == self.to,
            r.value@ == self.value@,
            r.gas@ == self.gas@,
            r.gasPrice@ == self.gasPrice@,
            r.data@ == self.input@,
            r.nonce is Some && r.nonce->0@ == self.nonce@,
            r.chainId is Some && r.chainId->0@ == spec_dec_str(chain_id as nat),
    {
        TransactionParams {
            from: self.from.clone(),
            to: match &self.to {
                Some(a) => Some(a.clone()),
                None => None,
            },
            value: self.value.clone(),
            gas: self.gas.clone(),
            gasPrice: self.gasPrice.clone(),
            data: self.input.clone(),
            nonce: Some(self.nonce.clone()),
            chainId: Some(decimal_string(chain_id)),
        }
    }
}

} // verus!
