//! Big- and little-endian byte encodings of unsigned integers, as
//! mathematical sequences, with the lemmas that make them inverse.
use vstd::arithmetic::div_mod::lemma_div_denominator;
use vstd::arithmetic::power::{lemma_pow_positive, pow};
use vstd::prelude::*;

verus! {

/// `256` raised to the power `n`.
pub open spec fn pow256(n: nat) -> nat
    decreases n,
{
    if n == 0 {
        1
    } else {
        256 * pow256((n - 1) as nat)
    }
}

/// The number that a big-endian byte sequence denotes.
pub open spec fn be_value(s: Seq<u8>) -> nat
    decreases s.len(),
{
    if s.len() == 0 {
        0
    } else {
        be_value(s.drop_last()) * 256 + s.last() as nat
    }
}

/// The `n` lowest bytes of `v`, most significant first.
pub open spec fn be_bytes(v: nat, n: nat) -> Seq<u8>
    decreases n,
{
    if n == 0 {
        Seq::empty()
    } else {
        be_bytes(v / 256, (n - 1) as nat).push((v % 256) as u8)
    }
}

/// The number that a little-endian byte sequence denotes.
pub open spec fn le_value(s: Seq<u8>) -> nat
    decreases s.len(),
{
    if s.len() == 0 {
        0
    } else {
        s[0] as nat + 256 * le_value(s.drop_first())
    }
}

/// The `n` lowest bytes of `v`, least significant first.
pub open spec fn le_bytes(v: nat, n: nat) -> Seq<u8>
    decreases n,
{
    if n == 0 {
        Seq::empty()
    } else {
        seq![(v % 256) as u8] + le_bytes(v / 256, (n - 1) as nat)
    }
}

/// Eight bytes hold every `u64`: `256^8 == 2^64`.
pub proof fn lemma_pow256_8()
    ensures
        pow256(8) == 0x1_0000_0000_0000_0000,
{
    reveal_with_fuel(pow256, 9);
}

pub proof fn lemma_div_256_below(v: nat, n: nat)
    requires
        n > 0,
        v < pow256(n),
    ensures
        v / 256 < pow256((n - 1) as nat),
        (v % 256) < 256,
{
    let p = pow256((n - 1) as nat);
    assert(v < 256 * p);
    assert(v / 256 < p) by (nonlinear_arith)
        requires
            v < 256 * p,
    ;
}

/// Encoding `v` in `n` big-endian bytes and reading them back gives `v`.
pub proof fn lemma_be_roundtrip(v: nat, n: nat)
    requires
        v < pow256(n),
    ensures
        be_bytes(v, n).len() == n,
        be_value(be_bytes(v, n)) == v,
    decreases n,
{
    if n == 0 {
    } else {
        lemma_div_256_below(v, n);
        lemma_be_roundtrip(v / 256, (n - 1) as nat);
        let s = be_bytes(v, n);
        assert(s.drop_last() == be_bytes(v / 256, (n - 1) as nat));
        assert(v == (v / 256) * 256 + v % 256) by (nonlinear_arith);
    }
}

/// A byte sequence denotes a number below `256^len`, and re-encoding it
/// gives the same sequence.
pub proof fn lemma_be_value_bytes(s: Seq<u8>)
    ensures
        be_value(s) < pow256(s.len()),
        be_bytes(be_value(s), s.len()) == s,
    decreases s.len(),
{
    if s.len() == 0 {
        assert(be_bytes(0, 0) =~= s);
    } else {
        let d = s.drop_last();
        lemma_be_value_bytes(d);
        let q = be_value(d);
        let r = s.last() as nat;
        let v = be_value(s);
        assert(v == q * 256 + r);
        assert(v / 256 == q && v % 256 == r) by (nonlinear_arith)
            requires
                v == q * 256 + r,
                r < 256,
        ;
        let p = pow256(d.len());
        assert(v < 256 * p) by (nonlinear_arith)
            requires
                v == q * 256 + r,
                r < 256,
                q < p,
        ;
        assert(be_bytes(v, s.len()) =~= d.push(s.last()));
    }
}

/// Encoding `v` in `n` little-endian bytes and reading them back gives `v`.
pub proof fn lemma_le_roundtrip(v: nat, n: nat)
    requires
        v < pow256(n),
    ensures
        le_bytes(v, n).len() == n,
        le_value(le_bytes(v, n)) == v,
    decreases n,
{
    if n == 0 {
    } else {
        lemma_div_256_below(v, n);
        lemma_le_roundtrip(v / 256, (n - 1) as nat);
        let s = le_bytes(v, n);
        assert(s.drop_first() =~= le_bytes(v / 256, (n - 1) as nat));
        assert(v == v % 256 + 256 * (v / 256)) by (nonlinear_arith);
    }
}

/// `pow256` is the power of 256 as vstd defines it.
pub proof fn lemma_pow256_is_pow(n: nat)
    ensures
        pow256(n) == pow(256, n),
    decreases n,
{
    reveal(pow);
    if n > 0 {
        lemma_pow256_is_pow((n - 1) as nat);
    }
}

/// Each byte of the big-endian encoding of `v` is the base-256 digit of its
/// place: the byte `i` places from the end is `(v / 256^i) % 256`.
pub proof fn lemma_be_bytes_digits(v: nat, n: nat)
    ensures
        be_bytes(v, n).len() == n,
        forall|i: int|
            0 <= i < n ==> #[trigger] be_bytes(v, n)[n - 1 - i] as int == (v as int / pow(256, i as nat))
                % 256,
    decreases n,
{
    if n > 0 {
        let m = (n - 1) as nat;
        lemma_be_bytes_digits(v / 256, m);
        let s = be_bytes(v, n);
        let t = be_bytes(v / 256, m);
        assert(s == t.push((v % 256) as u8));
        assert forall|i: int| 0 <= i < n implies #[trigger] s[n - 1 - i] as int == (v as int / pow(
            256,
            i as nat,
        )) % 256 by {
            if i == 0 {
                reveal(pow);
                assert(pow(256, 0) == 1);
                assert(v as int / 1 == v);
            } else {
                assert(s[n - 1 - i] == t[m - 1 - (i - 1)]);
                let p = pow(256, (i - 1) as nat);
                lemma_pow_positive(256, (i - 1) as nat);
                reveal(pow);
                assert(pow(256, i as nat) == 256 * p);
                lemma_div_denominator(v as int, 256, p);
                assert((v / 256) as int == v as int / 256);
            }
        }
    }
}

/// A big-endian byte sequence denotes the number whose base-256 digits are
/// its bytes: below `256^len`, with the byte `i` places from the end equal to
/// `(value / 256^i) % 256`.
pub proof fn lemma_be_value_digits(s: Seq<u8>)
    ensures
        be_value(s) < pow(256, s.len()),
        forall|i: int|
            0 <= i < s.len() ==> #[trigger] s[s.len() - 1 - i] as int == (be_value(s) as int / pow(
                256,
                i as nat,
            )) % 256,
{
    lemma_be_value_bytes(s);
    lemma_pow256_is_pow(s.len());
    lemma_be_bytes_digits(be_value(s), s.len());
}

/// Writes `v` as `n` big-endian bytes after what `out` already holds.
pub fn push_be_bytes(v: u64, n: usize, out: &mut Vec<u8>)
    ensures
        final(out)@ == old(out)@ + be_bytes(v as nat, n as nat),
    decreases n,
{
    if n == 0 {
        assert(old(out)@ + be_bytes(v as nat, 0) =~= old(out)@);
    } else {
        push_be_bytes(v / 256, n - 1, out);
        let byte: u8 = (v % 256) as u8;
        out.push(byte);
        assert(be_bytes(v as nat, n as nat) == be_bytes((v / 256) as nat, (n - 1) as nat).push(
            byte,
        ));
    }
}

/// The eight big-endian bytes of `v`.
pub fn u64_to_be_bytes(v: u64) -> (bytes: Vec<u8>)
    ensures
        bytes@ == be_bytes(v as nat, 8),
        bytes@.len() == 8,
        be_value(bytes@) == v,
        forall|i: int| 0 <= i < 8 ==> #[trigger] bytes@[7 - i] as int == (v as int / pow(256, i as nat)) % 256,
{
    let mut out: Vec<u8> = Vec::new();
    push_be_bytes(v, 8, &mut out);
    proof {
        assert(out@ =~= be_bytes(v as nat, 8));
        lemma_pow256_8();
        lemma_be_roundtrip(v as nat, 8);
        lemma_be_bytes_digits(v as nat, 8);
    }
    out
}

/// The number that the first eight bytes of `bytes` denote, big-endian.
pub fn u64_from_be_bytes(bytes: &[u8]) -> (v: u64)
    requires
        bytes@.len() >= 8,
    ensures
        v == be_value(bytes@.subrange(0, 8)),
        forall|i: int| 0 <= i < 8 ==> #[trigger] bytes@[7 - i] as int == (v as int / pow(256, i as nat)) % 256,
{
    let mut acc: u64 = 0;
    let mut i: usize = 0;
    proof {
        lemma_pow256_8();
    }
    while i < 8
        invariant
            i <= 8,
            bytes@.len() >= 8,
            acc == be_value(bytes@.subrange(0, i as int)),
            acc < pow256(i as nat),
            pow256(8) == 0x1_0000_0000_0000_0000,
        decreases 8 - i,
    {
        let ghost prefix = bytes@.subrange(0, i as int);
        let ghost next = bytes@.subrange(0, i + 1);
        assert(next.drop_last() =~= prefix);
        proof {
            lemma_be_value_bytes(next);
            lemma_pow_mono(next.len(), 8);
        }
        let b = bytes[i];
        acc = acc * 256 + b as u64;
        i = i + 1;
    }
    proof {
        let head = bytes@.subrange(0, 8);
        lemma_be_value_digits(head);
        assert forall|i: int| 0 <= i < 8 implies #[trigger] bytes@[7 - i] as int == (acc as int / pow(
            256,
            i as nat,
        )) % 256 by {
            assert(head[head.len() - 1 - i] == bytes@[7 - i]);
        }
    }
    acc
}

pub proof fn lemma_pow_mono(a: nat, b: nat)
    requires
        a <= b,
    ensures
        pow256(a) <= pow256(b),
    decreases b,
{
    if a < b {
        lemma_pow_mono(a, (b - 1) as nat);
    }
}

} // verus!
