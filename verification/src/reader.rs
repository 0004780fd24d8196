//! A cursor over a received byte buffer, with the read operations that
//! TL decoding needs.
use vstd::prelude::*;
use crate::le::{le_value, read_le};

verus! {

/// `s.take(k)` when `s` has `k` bytes, else all of `s` followed by zeros up to
/// `k` bytes: what a read of `k` bytes into a zeroed buffer leaves there.
pub open spec fn zero_filled(s: Seq<u8>, k: nat) -> Seq<u8> {
    if k <= s.len() {
        s.take(k as int)
    } else {
        s + Seq::new((k - s.len()) as nat, |i: int| 0u8)
    }
}

/// How many bytes such a read consumes: `k`, or all that is left.
pub open spec fn taken(s: Seq<u8>, k: nat) -> nat {
    if k <= s.len() {
        k
    } else {
        s.len()
    }
}

pub proof fn lemma_skip_skip(s: Seq<u8>, a: nat, b: nat)
    requires
        a + b <= s.len(),
    ensures
        s.skip(a as int).skip(b as int) == s.skip((a + b) as int),
{
    assert(s.skip(a as int).skip(b as int) =~= s.skip((a + b) as int));
}

pub proof fn lemma_skip_prefix(a: Seq<u8>, b: Seq<u8>)
    ensures
        (a + b).skip(a.len() as int) == b,
        (a + b).take(a.len() as int) == a,
{
    assert((a + b).skip(a.len() as int) =~= b);
    assert((a + b).take(a.len() as int) =~= a);
}

/// A read position within a borrowed byte buffer.
pub struct TLReader<'a> {
    data: &'a [u8],
    pos: usize,
}

impl<'a> TLReader<'a> {
    #[verifier::type_invariant]
    spec fn position_in_bounds(self) -> bool {
        self.pos <= self.data@.len()
    }

    /// All bytes of the buffer.
    pub closed spec fn bytes(&self) -> Seq<u8> {
        self.data@
    }

    /// How many bytes have been consumed.
    pub closed spec fn pos(&self) -> nat {
        self.pos as nat
    }

    /// The bytes not yet consumed.
    pub open spec fn rest(&self) -> Seq<u8> {
        self.bytes().skip(self.pos() as int)
    }

    /// A reader at the start of `data`.
    pub fn new(data: &'a [u8]) -> (r: Self)
        ensures
            r.bytes() == data@,
            r.pos() == 0,
    {
        TLReader { data, pos: 0 }
    }

    /// The number of bytes consumed so far.
    pub fn position(&self) -> (p: usize)
        ensures
            p == self.pos(),
            p <= self.bytes().len(),
            self.rest().len() == self.bytes().len() - p,
    {
        proof {
            use_type_invariant(self);
        }
        self.pos
    }

    /// The number of bytes not yet consumed.
    pub fn remaining(&self) -> (n: usize)
        ensures
            n == self.rest().len(),
    {
        proof {
            use_type_invariant(self);
        }
        self.data.len() - self.pos
    }

    /// Moves the read position back (or forward) to `pos`.
    pub fn rewind(&mut self, pos: usize)
        requires
            pos <= old(self).bytes().len(),
        ensures
            final(self).bytes() == old(self).bytes(),
            final(self).pos() == pos,
    {
        self.pos = pos;
    }

    /// Reads one byte; `None`, with nothing consumed, at the end of the buffer.
    pub fn read_u8(&mut self) -> (r: Option<u8>)
        ensures
            final(self).bytes() == old(self).bytes(),
            old(self).rest().len() >= 1 ==> r == Some(old(self).rest()[0]) && final(self).pos()
                == old(self).pos() + 1,
            old(self).rest().len() < 1 ==> r is None && final(self).pos() == old(self).pos(),
    {
        proof {
            use_type_invariant(&*self);
        }
        if self.pos < self.data.len() {
            let b = self.data[self.pos];
            self.pos = self.pos + 1;
            Some(b)
        } else {
            None
        }
    }

    /// Reads the unsigned number that the next `n` bytes denote, least
    /// significant first; `None`, with nothing consumed, when fewer are left.
    pub fn read_uint(&mut self, n: usize) -> (r: Option<u128>)
        requires
            n <= 16,
        ensures
            final(self).bytes() == old(self).bytes(),
            old(self).rest().len() >= n ==> r == Some(
                le_value(old(self).rest().take(n as int)) as u128,
            ) && final(self).pos() == old(self).pos() + n,
            old(self).rest().len() < n ==> r is None && final(self).pos() == old(self).pos(),
    {
        proof {
            use_type_invariant(&*self);
        }
        if n <= self.data.len() - self.pos {
            let v = read_le(self.data, self.pos, n);
            assert(self.data@.subrange(self.pos as int, self.pos + n) =~= self.rest().take(
                n as int,
            ));
            self.pos = self.pos + n;
            Some(v)
        } else {
            None
        }
    }

    /// Reads up to `k` bytes into a zeroed buffer of `k` bytes, as a read of a
    /// byte slice into such a buffer does: when fewer than `k` are left, all
    /// that is left is copied and the tail of the buffer stays zero.
    pub fn read_available(&mut self, k: usize) -> (r: Vec<u8>)
        ensures
            final(self).bytes() == old(self).bytes(),
            r@ == zero_filled(old(self).rest(), k as nat),
            final(self).pos() == old(self).pos() + taken(old(self).rest(), k as nat),
    {
        proof {
            use_type_invariant(&*self);
        }
        let ghost rest = self.rest();
        let len = self.data.len();
        let left = len - self.pos;
        let m = if k <= left {
            k
        } else {
            left
        };
        let mut out: Vec<u8> = Vec::new();
        let mut i: usize = 0;
        while i < m
            invariant
                m <= left,
                len == self.data@.len(),
                left == len - self.pos,
                rest == self.data@.skip(self.pos as int),
                i <= m,
                out@ == rest.take(i as int),
            decreases m - i,
        {
            let b = self.data[self.pos + i];
            out.push(b);
            assert(out@ =~= rest.take(i + 1));
            i = i + 1;
        }
        while i < k
            invariant
                m <= i <= k,
                m == taken(rest, k as nat),
                out@ == rest.take(m as int) + Seq::new((i - m) as nat, |j: int| 0u8),
            decreases k - i,
        {
            out.push(0u8);
            assert(out@ =~= rest.take(m as int) + Seq::new((i + 1 - m) as nat, |j: int| 0u8));
            i = i + 1;
        }
        assert(out@ =~= zero_filled(rest, k as nat));
        self.pos = self.pos + m;
        out
    }
}

} // verus!
