//! Little-endian encodings of unsigned integers as byte sequences.
use vstd::prelude::*;

verus! {

/// `256^n`.
pub open spec fn pow256(n: nat) -> nat
    decreases n,
{
    if n == 0 {
        1
    } else {
        256 * pow256((n - 1) as nat)
    }
}

/// The `n` low bytes of `x`, least significant first.
pub open spec fn le_bytes(x: nat, n: nat) -> Seq<u8>
    decreases n,
{
    if n == 0 {
        Seq::empty()
    } else {
        seq![(x % 256) as u8] + le_bytes(x / 256, (n - 1) as nat)
    }
}

/// The unsigned number that `s` denotes, least significant byte first.
pub open spec fn le_value(s: Seq<u8>) -> nat
    decreases s.len(),
{
    if s.len() == 0 {
        0
    } else {
        s[0] as nat + 256 * le_value(s.drop_first())
    }
}

pub proof fn lemma_pow256_positive(n: nat)
    ensures
        pow256(n) >= 1,
    decreases n,
{
    if n > 0 {
        lemma_pow256_positive((n - 1) as nat);
    }
}

pub proof fn lemma_pow256_monotonic(a: nat, b: nat)
    requires
        a <= b,
    ensures
        pow256(a) <= pow256(b),
    decreases b,
{
    if a < b {
        lemma_pow256_monotonic(a, (b - 1) as nat);
        lemma_pow256_positive((b - 1) as nat);
    }
}

pub proof fn lemma_le_bytes_len(x: nat, n: nat)
    ensures
        le_bytes(x, n).len() == n,
    decreases n,
{
    if n > 0 {
        lemma_le_bytes_len(x / 256, (n - 1) as nat);
    }
}

/// Decoding an encoding of a number that fits gives the number back.
pub proof fn lemma_le_value_of_bytes(x: nat, n: nat)
    requires
        x < pow256(n),
    ensures
        le_value(le_bytes(x, n)) == x,
    decreases n,
{
    if n > 0 {
        let s = le_bytes(x, n);
        lemma_le_value_of_bytes(x / 256, (n - 1) as nat);
        assert(s.drop_first() == le_bytes(x / 256, (n - 1) as nat));
    }
}

/// The number a byte sequence denotes fits in as many bytes.
pub proof fn lemma_le_value_bound(s: Seq<u8>)
    ensures
        le_value(s) < pow256(s.len()),
    decreases s.len(),
{
    if s.len() > 0 {
        lemma_le_value_bound(s.drop_first());
    }
}

/// Encoding the number a byte sequence denotes gives the sequence back.
pub proof fn lemma_le_bytes_of_value(s: Seq<u8>)
    ensures
        le_bytes(le_value(s), s.len()) == s,
    decreases s.len(),
{
    if s.len() > 0 {
        lemma_le_bytes_of_value(s.drop_first());
        lemma_le_value_bound(s.drop_first());
        let v = le_value(s);
        assert(v % 256 == s[0] as nat);
        assert(v / 256 == le_value(s.drop_first()));
        assert(le_bytes(v, s.len()) =~= s);
    }
}

/// Appends the `n` low bytes of `x` to `out`, least significant first.
pub fn write_le(out: &mut Vec<u8>, x: u128, n: usize)
    requires
        n <= 16,
        x < pow256(n as nat),
    ensures
        final(out)@ == old(out)@ + le_bytes(x as nat, n as nat),
{
    let ghost start = out@;
    let mut v: u128 = x;
    let mut i: usize = 0;
    while i < n
        invariant
            i <= n,
            n <= 16,
            out@ + le_bytes(v as nat, (n - i) as nat) == start + le_bytes(x as nat, n as nat),
        decreases n - i,
    {
        let ghost before = out@;
        let b: u8 = (v % 256) as u8;
        out.push(b);
        proof {
            let k = (n - i) as nat;
            assert(le_bytes(v as nat, k) == seq![b] + le_bytes((v / 256) as nat, (k - 1) as nat));
            assert(out@ + le_bytes((v / 256) as nat, (k - 1) as nat) =~= before + le_bytes(
                v as nat,
                k,
            ));
        }
        v = v / 256;
        i = i + 1;
    }
    assert(out@ + le_bytes(v as nat, 0) =~= out@);
}

/// Reads the number that `n` bytes of `data` from `start` denote, least
/// significant first.
pub fn read_le(data: &[u8], start: usize, n: usize) -> (r: u128)
    requires
        n <= 16,
        start + n <= data@.len(),
    ensures
        r == le_value(data@.subrange(start as int, start + n)),
{
    let len = data.len();
    let mut acc: u128 = 0;
    let mut i: usize = n;
    proof {
        lemma_pow256_monotonic(0, 16);
        assert(data@.subrange(start + n, start + n).len() == 0);
    }
    while i > 0
        invariant
            i <= n,
            n <= 16,
            start + n <= data@.len(),
            len == data@.len(),
            acc == le_value(data@.subrange(start + i, start + n)),
        decreases i,
    {
        let ghost tail = data@.subrange(start + i, start + n);
        let ghost whole = data@.subrange(start + i - 1, start + n);
        proof {
            lemma_le_value_bound(tail);
            lemma_pow256_monotonic(tail.len(), 15);
            reveal_with_fuel(pow256, 17);
            assert(whole.drop_first() =~= tail);
        }
        let b = data[start + i - 1];
        acc = acc * 256 + b as u128;
        i = i - 1;
    }
    acc
}

} // verus!
