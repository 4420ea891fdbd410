//! Big-endian byte layouts of unsigned integers.
use vstd::prelude::*;

verus! {

/// The `k` low base-256 digits of `v`, most significant first.
pub open spec fn be_digits(v: nat, k: nat) -> Seq<u8>
    decreases k,
{
    if k == 0 {
        Seq::empty()
    } else {
        be_digits(v / 256, (k - 1) as nat).push((v % 256) as u8)
    }
}

/// The number that a big-endian byte sequence denotes.
pub open spec fn be_value(s: Seq<u8>) -> nat
    decreases s.len(),
{
    if s.len() == 0 {
        0
    } else {
        (be_value(s.drop_last()) * 256 + s.last()) as nat
    }
}

/// `256` raised to the power `k`.
pub open spec fn pow256(k: nat) -> nat
    decreases k,
{
    if k == 0 {
        1
    } else {
        256 * pow256((k - 1) as nat)
    }
}

/// The number of bytes of a `usize` on the running platform.
pub open spec fn usize_width() -> nat {
    (usize::BITS / 8) as nat
}

pub proof fn lemma_pow256_positive(k: nat)
    ensures
        pow256(k) > 0,
    decreases k,
{
    if k > 0 {
        lemma_pow256_positive((k - 1) as nat);
    }
}

/// Encoding `k` digits has length `k`.
pub proof fn lemma_be_digits_len(v: nat, k: nat)
    ensures
        be_digits(v, k).len() == k,
    decreases k,
{
    if k > 0 {
        lemma_be_digits_len(v / 256, (k - 1) as nat);
    }
}

/// Decoding the `k`-digit encoding of `v` gives `v` modulo `256^k`.
pub proof fn lemma_be_value_of_digits(v: nat, k: nat)
    ensures
        be_value(be_digits(v, k)) == v % pow256(k),
    decreases k,
{
    if k == 0 {
    } else {
        let k1 = (k - 1) as nat;
        lemma_be_value_of_digits(v / 256, k1);
        lemma_pow256_positive(k1);
        let s = be_digits(v, k);
        assert(s.drop_last() =~= be_digits(v / 256, k1));
        vstd::arithmetic::div_mod::lemma_breakdown(v as int, 256, pow256(k1) as int);
    }
}

/// Encoding the value of a byte sequence with as many digits gives the sequence back.
pub proof fn lemma_be_digits_of_value(s: Seq<u8>)
    ensures
        be_digits(be_value(s), s.len()) == s,
    decreases s.len(),
{
    if s.len() > 0 {
        let p = s.drop_last();
        lemma_be_digits_of_value(p);
        let v = be_value(s);
        assert(v / 256 == be_value(p) && v % 256 == s.last()) by {
            vstd::arithmetic::div_mod::lemma_fundamental_div_mod_converse(
                v as int,
                256,
                be_value(p) as int,
                s.last() as int,
            );
        }
        assert(be_digits(v, s.len()) =~= p.push(s.last()));
        assert(p.push(s.last()) =~= s);
    }
}

/// The value of `k` bytes is below `256^k`.
pub proof fn lemma_be_value_bound(s: Seq<u8>)
    ensures
        be_value(s) < pow256(s.len()),
    decreases s.len(),
{
    if s.len() > 0 {
        lemma_be_value_bound(s.drop_last());
    }
}

/// The two-byte encoding of a `u16` decodes to it.
pub proof fn lemma_u16_roundtrip(v: u16)
    ensures
        be_digits(v as nat, 2).len() == 2,
        be_value(be_digits(v as nat, 2)) == v,
{
    lemma_be_digits_len(v as nat, 2);
    lemma_be_value_of_digits(v as nat, 2);
    assert(pow256(2) == 65536) by {
        reveal_with_fuel(pow256, 3);
    }
}

/// The four-byte encoding of a `u32` decodes to it.
pub proof fn lemma_u32_roundtrip(v: u32)
    ensures
        be_digits(v as nat, 4).len() == 4,
        be_value(be_digits(v as nat, 4)) == v,
{
    lemma_be_digits_len(v as nat, 4);
    lemma_be_value_of_digits(v as nat, 4);
    assert(pow256(4) == 0x1_0000_0000) by {
        reveal_with_fuel(pow256, 5);
    }
}

/// The value of two bytes, high byte first.
pub proof fn lemma_be_value_two(hi: u8, lo: u8)
    ensures
        be_value(seq![hi, lo]) == hi * 256 + lo,
{
    let s = seq![hi, lo];
    let one = seq![hi];
    assert(one.drop_last() =~= Seq::<u8>::empty());
    assert(be_value(Seq::<u8>::empty()) == 0);
    assert(be_value(one) == hi);
    assert(s.drop_last() =~= one);
    assert(s.last() == lo);
}

/// The value of four bytes, most significant first.
pub proof fn lemma_be_value_four(b0: u8, b1: u8, b2: u8, b3: u8)
    ensures
        be_value(seq![b0, b1, b2, b3]) == b0 * 16777216 + b1 * 65536 + b2 * 256 + b3,
{
    let s = seq![b0, b1, b2, b3];
    let three = seq![b0, b1, b2];
    lemma_be_value_two(b0, b1);
    assert(three.drop_last() =~= seq![b0, b1]);
    assert(three.last() == b2);
    assert(be_value(three) == (b0 * 256 + b1) * 256 + b2);
    assert(s.drop_last() =~= three);
    assert(s.last() == b3);
    assert(be_value(s) == ((b0 * 256 + b1) * 256 + b2) * 256 + b3);
}

/// The two-byte big-endian encoding of `v`.
pub fn u16_to_be_bytes(v: u16) -> (r: Vec<u8>)
    ensures
        r@ == be_digits(v as nat, 2),
{
    let mut r: Vec<u8> = Vec::new();
    r.push((v / 256) as u8);
    r.push((v % 256) as u8);
    proof {
        reveal_with_fuel(be_digits, 3);
        assert(r@ =~= be_digits(v as nat, 2));
    }
    r
}

/// The `u16` whose big-endian bytes are `hi` then `lo`.
pub fn u16_from_be_bytes(hi: u8, lo: u8) -> (r: u16)
    ensures
        r == be_value(seq![hi, lo]),
{
    proof {
        lemma_be_value_two(hi, lo);
    }
    (hi as u16) * 256 + (lo as u16)
}

/// The four-byte big-endian encoding of `v`.
pub fn u32_to_be_bytes(v: u32) -> (r: Vec<u8>)
    ensures
        r@ == be_digits(v as nat, 4),
{
    let mut r: Vec<u8> = Vec::new();
    r.push((v / 16777216) as u8);
    r.push(((v / 65536) % 256) as u8);
    r.push(((v / 256) % 256) as u8);
    r.push((v % 256) as u8);
    proof {
        reveal_with_fuel(be_digits, 5);
        let n = v as nat;
        assert(n / 256 / 256 == n / 65536);
        assert(n / 256 / 256 / 256 == n / 16777216);
        assert(n / 16777216 < 256);
        assert(r@ =~= be_digits(v as nat, 4));
    }
    r
}

/// The `u32` whose big-endian bytes are `b0`, `b1`, `b2`, `b3`.
pub fn u32_from_be_bytes(b0: u8, b1: u8, b2: u8, b3: u8) -> (r: u32)
    ensures
        r == be_value(seq![b0, b1, b2, b3]),
{
    proof {
        lemma_be_value_four(b0, b1, b2, b3);
    }
    (b0 as u32) * 16777216 + (b1 as u32) * 65536 + (b2 as u32) * 256 + (b3 as u32)
}

/// The `k` low base-256 digits of `v`, most significant first.
fn be_digits_of(v: usize, k: usize) -> (r: Vec<u8>)
    ensures
        r@ == be_digits(v as nat, k as nat),
    decreases k,
{
    if k == 0 {
        Vec::new()
    } else {
        let mut r = be_digits_of(v / 256, k - 1);
        r.push((v % 256) as u8);
        r
    }
}

/// The big-endian encoding of `v` over the full width of a `usize`.
pub fn usize_to_be_bytes(v: usize) -> (r: Vec<u8>)
    ensures
        r@ == be_digits(v as nat, usize_width()),
        r@.len() == usize_width(),
{
    let width: usize = (usize::BITS / 8) as usize;
    proof {
        lemma_be_digits_len(v as nat, width as nat);
    }
    be_digits_of(v, width)
}

} // verus!
