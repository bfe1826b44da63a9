//! RLP, the canonical byte serialization a signed transaction is
//! broadcast in: byte-string items, list framing, and the big-endian
//! minimal integer form RLP uses for quantities.

use vstd::prelude::*;

verus! {

/// The minimal big-endian bytes of `n`; empty for 0, as RLP renders
/// integer quantities.
pub open spec fn be_bytes(n: nat) -> Seq<u8>
    decreases n,
    via be_bytes_dec
{
    if n == 0 {
        Seq::empty()
    } else {
        be_bytes(n / 256).push((n % 256) as u8)
    }
}

#[via_fn]
proof fn be_bytes_dec(n: nat) {
    if n > 0 {
        vstd::arithmetic::div_mod::lemma_div_decreases(n as int, 256);
    }
}

/// The RLP encoding of a byte string: a single byte below `0x80` stands
/// alone; up to 55 bytes take a one-byte header; longer strings take a
/// header and the big-endian length.
pub open spec fn rlp_str(b: Seq<u8>) -> Seq<u8> {
    if b.len() == 1 && b[0] < 0x80 {
        b
    } else if b.len() <= 55 {
        seq![(0x80 + b.len()) as u8] + b
    } else {
        seq![(0xb7 + be_bytes(b.len() as nat).len()) as u8] + be_bytes(b.len() as nat) + b
    }
}

/// The RLP framing of a list with the given payload (the concatenation
/// of its encoded items).
pub open spec fn rlp_list(payload: Seq<u8>) -> Seq<u8> {
    if payload.len() <= 55 {
        seq![(0xc0 + payload.len()) as u8] + payload
    } else {
        seq![(0xf7 + be_bytes(payload.len() as nat).len()) as u8] + be_bytes(payload.len() as nat)
            + payload
    }
}

/// 256 to the `k`.
pub open spec fn pow256(k: nat) -> nat
    decreases k,
{
    if k == 0 {
        1
    } else {
        256 * pow256((k - 1) as nat)
    }
}

proof fn lemma_be_bytes_len(n: nat, k: nat)
    requires
        n < pow256(k),
    ensures
        be_bytes(n).len() <= k,
    decreases k,
{
    if n > 0 {
        assert(k > 0);
        assert(n / 256 < pow256((k - 1) as nat)) by (nonlinear_arith)
            requires
                n < pow256(k),
                pow256(k) == 256 * pow256((k - 1) as nat),
                n > 0,
        ;
        lemma_be_bytes_len(n / 256, (k - 1) as nat);
    }
}

/// The big-endian length bytes of any `u64`-sized length fit in 8 bytes.
proof fn lemma_be_bytes_len_u64(n: nat)
    requires
        n <= u64::MAX,
    ensures
        be_bytes(n).len() <= 8,
{
    assert(pow256(0) == 1);
    assert(pow256(1) == 256);
    assert(pow256(2) == 65536);
    assert(pow256(3) == 0x1000000);
    assert(pow256(4) == 0x100000000);
    assert(pow256(5) == 0x10000000000);
    assert(pow256(6) == 0x1000000000000);
    assert(pow256(7) == 0x100000000000000);
    assert(pow256(8) == 0x10000000000000000);
    lemma_be_bytes_len(n, 8);
}

/// The byte values of `ds` in reverse order.
spec fn rev_bytes(ds: Seq<u8>) -> Seq<u8>
    decreases ds.len(),
{
    if ds.len() == 0 {
        Seq::empty()
    } else {
        seq![ds.last()] + rev_bytes(ds.drop_last())
    }
}

/// The minimal big-endian bytes of `n`.
pub fn be_bytes_of_u64(n: u64) -> (r: Vec<u8>)
    ensures
        r@ == be_bytes(n as nat),
{
    let mut digits: Vec<u8> = Vec::new();
    let mut m = n;
    while m > 0
        invariant
            be_bytes(n as nat) == be_bytes(m as nat) + rev_bytes(digits@),
        decreases m,
    {
        let ghost m0 = m as nat;
        let ghost old_digits = digits@;
        let d = (m % 256) as u8;
        digits.push(d);
        m = m / 256;
        proof {
            assert(be_bytes(m0) == be_bytes(m as nat).push(d));
            assert(digits@.last() == d && digits@.drop_last() =~= old_digits);
            assert(rev_bytes(digits@) =~= seq![d] + rev_bytes(old_digits));
            assert(be_bytes(m as nat) + rev_bytes(digits@) =~= (be_bytes(m as nat).push(d))
                + rev_bytes(old_digits));
        }
    }
    proof {
        assert(be_bytes(0nat) + rev_bytes(digits@) =~= rev_bytes(digits@));
        assert(digits@.take(digits@.len() as int) =~= digits@);
    }
    let mut out: Vec<u8> = Vec::new();
    let mut i = digits.len();
    while i > 0
        invariant
            i <= digits@.len(),
            be_bytes(n as nat) == rev_bytes(digits@),
            rev_bytes(digits@) == out@ + rev_bytes(digits@.take(i as int)),
        decreases i,
    {
        i = i - 1;
        let ghost pre = out@;
        out.push(digits[i]);
        proof {
            let t = digits@.take(i + 1);
            assert(t.last() == digits@[i as int] && t.drop_last() =~= digits@.take(i as int));
            assert(rev_bytes(t) =~= seq![digits@[i as int]] + rev_bytes(digits@.take(i as int)));
            assert(pre + rev_bytes(t) =~= out@ + rev_bytes(digits@.take(i as int)));
        }
    }
    proof {
        assert(rev_bytes(digits@.take(0)) =~= Seq::<u8>::empty());
        assert(out@ + rev_bytes(digits@.take(0)) =~= out@);
    }
    out
}

/// Encodes one byte string as an RLP item.
pub fn rlp_encode_bytes(b: &Vec<u8>) -> (r: Vec<u8>)
    ensures
        r@ == rlp_str(b@),
{
    let n = b.len();
    if n == 1 && b[0] < 0x80 {
        let mut out: Vec<u8> = Vec::new();
        out.push(b[0]);
        proof {
            assert(out@ =~= b@);
        }
        out
    } else if n <= 55 {
        let mut out: Vec<u8> = Vec::new();
        out.push((0x80 + n) as u8);
        out.extend_from_slice(b.as_slice());
        proof {
            assert(out@ =~= seq![(0x80 + b@.len()) as u8] + b@);
        }
        out
    } else {
        let mut lenbytes = be_bytes_of_u64(n as u64);
        let ghost lb = lenbytes@;
        let ll = lenbytes.len();
        proof {
            lemma_be_bytes_len_u64(n as nat);
        }
        let mut out: Vec<u8> = Vec::new();
        out.push((0xb7 + ll) as u8);
        out.append(&mut lenbytes);
        out.extend_from_slice(b.as_slice());
        proof {
            assert(out@ =~= seq![(0xb7 + be_bytes(b@.len() as nat).len()) as u8] + be_bytes(
                b@.len() as nat,
            ) + b@);
        }
        out
    }
}

/// Frames an already-encoded payload as an RLP list.
pub fn rlp_wrap_list(payload: &Vec<u8>) -> (r: Vec<u8>)
    ensures
        r@ == rlp_list(payload@),
{
    let n = payload.len();
    if n <= 55 {
        let mut out: Vec<u8> = Vec::new();
        out.push((0xc0 + n) as u8);
        out.extend_from_slice(payload.as_slice());
        proof {
            assert(out@ =~= seq![(0xc0 + payload@.len()) as u8] + payload@);
        }
        out
    } else {
        let mut lenbytes = be_bytes_of_u64(n as u64);
        let ll = lenbytes.len();
        proof {
            lemma_be_bytes_len_u64(n as nat);
        }
        let mut out: Vec<u8> = Vec::new();
        out.push((0xf7 + ll) as u8);
        out.append(&mut lenbytes);
        out.extend_from_slice(payload.as_slice());
        proof {
            assert(out@ =~= seq![(0xf7 + be_bytes(payload@.len() as nat).len()) as u8] + be_bytes(
                payload@.len() as nat,
            ) + payload@);
        }
        out
    }
}

} // verus!
