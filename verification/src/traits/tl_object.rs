//! The `TLObject` interface: a value that TL serializes to bytes and reads
//! back from a buffer, with the implementations for TL's `int`, `long`,
//! `int128`, `int256`, `Vector t` and `bytes`.
use vstd::prelude::*;
use crate::le::{
    le_bytes, le_value, pow256, write_le, lemma_le_bytes_len, lemma_le_value_of_bytes,
    lemma_le_value_bound,
};
use crate::reader::{TLReader, lemma_skip_prefix, lemma_skip_skip, zero_filled, taken};
use crate::le::read_le;
use crate::utils::{calculate_padding_bytes, padding_len};

verus! {

/// The two's complement representation of `x` in `n` bytes.
pub open spec fn to_unsigned(x: int, n: nat) -> nat {
    if x >= 0 {
        x as nat
    } else {
        (x + pow256(n)) as nat
    }
}

/// The signed number whose two's complement representation in `n` bytes is `u`.
pub open spec fn to_signed(u: nat, n: nat) -> int {
    if u < pow256(n) / 2 {
        u as int
    } else {
        u - pow256(n)
    }
}

/// The TL encoding of a signed integer of `n` bytes: its two's complement, little-endian.
pub open spec fn signed_le_bytes(x: int, n: nat) -> Seq<u8> {
    le_bytes(to_unsigned(x, n), n)
}

/// Reads a fixed-size little-endian number of `n` bytes from the front of `data`.
pub open spec fn read_fixed(data: Seq<u8>, n: nat) -> Option<(nat, nat)> {
    if data.len() >= n {
        Some((le_value(data.take(n as int)), n))
    } else {
        None
    }
}

/// Reading a fixed-size number back from its encoding followed by anything.
pub proof fn lemma_read_fixed_roundtrip(x: nat, n: nat, rest: Seq<u8>)
    requires
        x < pow256(n),
    ensures
        le_bytes(x, n).len() == n,
        read_fixed(le_bytes(x, n) + rest, n) == Some((x, n)),
{
    lemma_le_bytes_len(x, n);
    lemma_skip_prefix(le_bytes(x, n), rest);
    lemma_le_value_of_bytes(x, n);
}

/// A value with a TL binary form.
///
/// `model` is the mathematical value that an object stands for,
/// `spec_to_bytes` its TL encoding, and `spec_read` what decoding the front
/// of a byte sequence gives: the value and how many bytes it takes, or
/// `None` where the bytes do not hold one.
pub trait TLObject: Sized {
    type Model;

    spec fn model(&self) -> Self::Model;

    spec fn spec_to_bytes(m: Self::Model) -> Seq<u8>;

    spec fn spec_read(data: Seq<u8>) -> Option<(Self::Model, nat)>;

    /// The values whose encoding decodes back to them.
    spec fn spec_decodable(m: Self::Model) -> bool;

    /// Decodes a value at the reader's position and moves past it. Where the
    /// bytes there do not hold a value (too few bytes, another constructor
    /// number, a byte string of another length than a fixed-size one
    /// needs), returns `None` and leaves the reader where it was, rather
    /// than panicking.
    fn read_from(buffer: &mut TLReader) -> (r: Option<Self>)
        ensures
            final(buffer).bytes() == old(buffer).bytes(),
            match Self::spec_read(old(buffer).rest()) {
                Some((m, n)) => r matches Some(x) && x.model() == m && final(buffer).pos() == old(
                    buffer,
                ).pos() + n,
                None => r is None && final(buffer).pos() == old(buffer).pos(),
            },
    ;

    /// The TL encoding of the value.
    fn to_bytes(&self) -> (out: Vec<u8>)
        ensures
            out@ == Self::spec_to_bytes(self.model()),
    ;

    /// Decoding the encoding of a decodable value, whatever follows it,
    /// gives the value back and consumes exactly the encoding.
    proof fn lemma_read_to_bytes(m: Self::Model, rest: Seq<u8>)
        ensures
            Self::spec_decodable(m) ==> Self::spec_read(Self::spec_to_bytes(m) + rest) == Some(
                (m, Self::spec_to_bytes(m).len()),
            ),
    ;

    /// Every encoding is a whole number of 4-byte words.
    proof fn lemma_to_bytes_aligned(&self)
        ensures
            Self::spec_to_bytes(self.model()).len() % 4 == 0,
    ;
}

impl TLObject for i32 {
    type Model = i32;

    open spec fn model(&self) -> i32 {
        *self
    }

    open spec fn spec_to_bytes(m: i32) -> Seq<u8> {
        signed_le_bytes(m as int, 4)
    }

    open spec fn spec_read(data: Seq<u8>) -> Option<(i32, nat)> {
        match read_fixed(data, 4) {
            Some((u, n)) => Some((to_signed(u, 4) as i32, n)),
            None => None,
        }
    }

    open spec fn spec_decodable(m: i32) -> bool {
        true
    }

    fn read_from(buffer: &mut TLReader) -> (r: Option<i32>) {
        match buffer.read_uint(4) {
            Some(u) => {
                proof {
                    reveal_with_fuel(pow256, 5);
                    lemma_le_value_bound(old(buffer).rest().take(4));
                }
                if u < 2147483648 {
                    Some(u as i32)
                } else {
                    Some((u as i64 - 4294967296) as i32)
                }
            },
            None => None,
        }
    }

    fn to_bytes(&self) -> (out: Vec<u8>) {
        proof {
            reveal_with_fuel(pow256, 5);
        }
        let x = *self;
        let u: u128 = if x >= 0 {
            x as u128
        } else {
            (x as i64 + 4294967296) as u128
        };
        let mut total: Vec<u8> = Vec::new();
        write_le(&mut total, u, 4);
        total
    }

    proof fn lemma_read_to_bytes(m: i32, rest: Seq<u8>) {
        reveal_with_fuel(pow256, 5);
        lemma_read_fixed_roundtrip(to_unsigned(m as int, 4), 4, rest);
    }

    proof fn lemma_to_bytes_aligned(&self) {
        lemma_le_bytes_len(to_unsigned(*self as int, 4), 4);
    }
}

impl TLObject for u32 {
    type Model = u32;

    open spec fn model(&self) -> u32 {
        *self
    }

    open spec fn spec_to_bytes(m: u32) -> Seq<u8> {
        le_bytes(m as nat, 4)
    }

    open spec fn spec_read(data: Seq<u8>) -> Option<(u32, nat)> {
        match read_fixed(data, 4) {
            Some((u, n)) => Some((u as u32, n)),
            None => None,
        }
    }

    open spec fn spec_decodable(m: u32) -> bool {
        true
    }

    fn read_from(buffer: &mut TLReader) -> (r: Option<u32>) {
        match buffer.read_uint(4) {
            Some(u) => {
                proof {
                    reveal_with_fuel(pow256, 5);
                    lemma_le_value_bound(old(buffer).rest().take(4));
                }
                Some(u as u32)
            },
            None => None,
        }
    }

    fn to_bytes(&self) -> (out: Vec<u8>) {
        proof {
            reveal_with_fuel(pow256, 5);
        }
        let mut total: Vec<u8> = Vec::new();
        write_le(&mut total, *self as u128, 4);
        total
    }

    proof fn lemma_read_to_bytes(m: u32, rest: Seq<u8>) {
        reveal_with_fuel(pow256, 5);
        lemma_read_fixed_roundtrip(m as nat, 4, rest);
    }

    proof fn lemma_to_bytes_aligned(&self) {
        lemma_le_bytes_len(*self as nat, 4);
    }
}

impl TLObject for i64 {
    type Model = i64;

    open spec fn model(&self) -> i64 {
        *self
    }

    open spec fn spec_to_bytes(m: i64) -> Seq<u8> {
        signed_le_bytes(m as int, 8)
    }

    open spec fn spec_read(data: Seq<u8>) -> Option<(i64, nat)> {
        match read_fixed(data, 8) {
            Some((u, n)) => Some((to_signed(u, 8) as i64, n)),
            None => None,
        }
    }

    open spec fn spec_decodable(m: i64) -> bool {
        true
    }

    fn read_from(buffer: &mut TLReader) -> (r: Option<i64>) {
        match buffer.read_uint(8) {
            Some(u) => {
                proof {
                    reveal_with_fuel(pow256, 9);
                    lemma_le_value_bound(old(buffer).rest().take(8));
                }
                if u < 9223372036854775808 {
                    Some(u as i64)
                } else {
                    Some((u as i128 - 18446744073709551616) as i64)
                }
            },
            None => None,
        }
    }

    fn to_bytes(&self) -> (out: Vec<u8>) {
        proof {
            reveal_with_fuel(pow256, 9);
        }
        let x = *self;
        let u: u128 = if x >= 0 {
            x as u128
        } else {
            (x as i128 + 18446744073709551616) as u128
        };
        let mut total: Vec<u8> = Vec::new();
        write_le(&mut total, u, 8);
        total
    }

    proof fn lemma_read_to_bytes(m: i64, rest: Seq<u8>) {
        reveal_with_fuel(pow256, 9);
        lemma_read_fixed_roundtrip(to_unsigned(m as int, 8), 8, rest);
    }

    proof fn lemma_to_bytes_aligned(&self) {
        lemma_le_bytes_len(to_unsigned(*self as int, 8), 8);
    }
}

impl TLObject for i128 {
    type Model = i128;

    open spec fn model(&self) -> i128 {
        *self
    }

    open spec fn spec_to_bytes(m: i128) -> Seq<u8> {
        signed_le_bytes(m as int, 16)
    }

    open spec fn spec_read(data: Seq<u8>) -> Option<(i128, nat)> {
        match read_fixed(data, 16) {
            Some((u, n)) => Some((to_signed(u, 16) as i128, n)),
            None => None,
        }
    }

    open spec fn spec_decodable(m: i128) -> bool {
        true
    }

    fn read_from(buffer: &mut TLReader) -> (r: Option<i128>) {
        match buffer.read_uint(16) {
            Some(u) => {
                proof {
                    reveal_with_fuel(pow256, 17);
                    lemma_le_value_bound(old(buffer).rest().take(16));
                }
                if u < 170141183460469231731687303715884105728 {
                    Some(u as i128)
                } else {
                    Some(((u - 170141183460469231731687303715884105728) as i128) - i128::MAX - 1)
                }
            },
            None => None,
        }
    }

    fn to_bytes(&self) -> (out: Vec<u8>) {
        proof {
            reveal_with_fuel(pow256, 17);
        }
        let x = *self;
        let u: u128 = if x >= 0 {
            x as u128
        } else {
            ((x + i128::MAX) + 1) as u128 + 170141183460469231731687303715884105728
        };
        let mut total: Vec<u8> = Vec::new();
        write_le(&mut total, u, 16);
        total
    }

    proof fn lemma_read_to_bytes(m: i128, rest: Seq<u8>) {
        reveal_with_fuel(pow256, 17);
        lemma_read_fixed_roundtrip(to_unsigned(m as int, 16), 16, rest);
    }

    proof fn lemma_to_bytes_aligned(&self) {
        lemma_le_bytes_len(to_unsigned(*self as int, 16), 16);
    }
}


/// The constructor number that opens a TL `Vector t`.
pub const VECTOR_CONSTRUCTOR: u32 = 0x1cb5c415;

/// The encodings of `ms`, one after another.
pub open spec fn items_to_bytes<T: TLObject>(ms: Seq<T::Model>) -> Seq<u8>
    decreases ms.len(),
{
    if ms.len() == 0 {
        Seq::empty()
    } else {
        T::spec_to_bytes(ms[0]) + items_to_bytes::<T>(ms.drop_first())
    }
}

/// Decodes `count` values one after another from the front of `data`.
pub open spec fn read_items<T: TLObject>(data: Seq<u8>, count: nat) -> Option<(Seq<T::Model>, nat)>
    decreases count,
{
    if count == 0 {
        Some((Seq::empty(), 0))
    } else {
        match T::spec_read(data) {
            Some((m, n)) => match read_items::<T>(data.skip(n as int), (count - 1) as nat) {
                Some((ms, k)) => Some((seq![m] + ms, n + k)),
                None => None,
            },
            None => None,
        }
    }
}

pub proof fn lemma_items_to_bytes_push<T: TLObject>(ms: Seq<T::Model>, m: T::Model)
    ensures
        items_to_bytes::<T>(ms.push(m)) == items_to_bytes::<T>(ms) + T::spec_to_bytes(m),
    decreases ms.len(),
{
    if ms.len() == 0 {
        assert(ms.push(m).drop_first() =~= ms);
        assert(ms.push(m)[0] == m);
        assert(items_to_bytes::<T>(ms) == Seq::<u8>::empty());
        assert(items_to_bytes::<T>(ms.push(m)) =~= T::spec_to_bytes(m));
    } else {
        lemma_items_to_bytes_push::<T>(ms.drop_first(), m);
        assert(ms.push(m).drop_first() =~= ms.drop_first().push(m));
        assert(items_to_bytes::<T>(ms.push(m)) =~= items_to_bytes::<T>(ms) + T::spec_to_bytes(m));
    }
}

/// The encodings of whole-word values, one after another, are whole words.
pub proof fn lemma_items_aligned<T: TLObject>(xs: Seq<T>)
    ensures
        items_to_bytes::<T>(Seq::new(xs.len(), |i: int| xs[i].model())).len() % 4 == 0,
    decreases xs.len(),
{
    let ms = Seq::new(xs.len(), |i: int| xs[i].model());
    if xs.len() > 0 {
        lemma_items_aligned::<T>(xs.drop_first());
        assert(ms.drop_first() =~= Seq::new(xs.drop_first().len(), |i: int| xs.drop_first()[i].model()));
        xs[0].lemma_to_bytes_aligned();
    }
}

pub proof fn lemma_read_items_roundtrip<T: TLObject>(ms: Seq<T::Model>, rest: Seq<u8>)
    requires
        forall|i: int| 0 <= i < ms.len() ==> T::spec_decodable(#[trigger] ms[i]),
    ensures
        read_items::<T>(items_to_bytes::<T>(ms) + rest, ms.len()) == Some(
            (ms, items_to_bytes::<T>(ms).len()),
        ),
    decreases ms.len(),
{
    if ms.len() == 0 {
        assert(items_to_bytes::<T>(ms) + rest =~= rest);
        assert(ms =~= Seq::<T::Model>::empty());
    } else {
        let head = T::spec_to_bytes(ms[0]);
        let tail = items_to_bytes::<T>(ms.drop_first());
        assert(items_to_bytes::<T>(ms) + rest =~= head + (tail + rest));
        assert(T::spec_decodable(ms[0]));
        T::lemma_read_to_bytes(ms[0], tail + rest);
        lemma_skip_prefix(head, tail + rest);
        assert forall|i: int| 0 <= i < ms.drop_first().len() implies T::spec_decodable(
            #[trigger] ms.drop_first()[i],
        ) by {
            assert(ms.drop_first()[i] == ms[i + 1]);
        }
        lemma_read_items_roundtrip::<T>(ms.drop_first(), rest);
        assert(seq![ms[0]] + ms.drop_first() =~= ms);
    }
}

impl<T: TLObject> TLObject for Vec<T> {
    type Model = Seq<T::Model>;

    open spec fn model(&self) -> Seq<T::Model> {
        Seq::new(self@.len(), |i: int| self@[i].model())
    }

    open spec fn spec_to_bytes(m: Seq<T::Model>) -> Seq<u8> {
        le_bytes(VECTOR_CONSTRUCTOR as nat, 4) + le_bytes(m.len() % pow256(4), 4)
            + items_to_bytes::<T>(m)
    }

    open spec fn spec_read(data: Seq<u8>) -> Option<(Seq<T::Model>, nat)> {
        match read_fixed(data, 4) {
            Some((id, n0)) => if id == VECTOR_CONSTRUCTOR {
                match read_fixed(data.skip(4), 4) {
                    Some((count, n1)) => match read_items::<T>(data.skip(8), count) {
                        Some((ms, k)) => Some((ms, 8 + k)),
                        None => None,
                    },
                    None => None,
                }
            } else {
                None
            },
            None => None,
        }
    }

    open spec fn spec_decodable(m: Seq<T::Model>) -> bool {
        &&& m.len() < pow256(4)
        &&& forall|i: int| 0 <= i < m.len() ==> T::spec_decodable(#[trigger] m[i])
    }

    fn read_from(buffer: &mut TLReader) -> (r: Option<Vec<T>>) {
        let ghost b0 = buffer.bytes();
        let ghost d0 = buffer.rest();
        let start = buffer.position();
        match buffer.read_uint(4) {
            Some(id) => {
                if id != 0x1cb5c415 {
                    buffer.rewind(start);
                    return None;
                }
            },
            None => {
                return None;
            },
        }
        let count = match buffer.read_uint(4) {
            Some(c) => c,
            None => {
                buffer.rewind(start);
                assert(d0.skip(4).len() < 4);
                return None;
            },
        };
        let _ = buffer.position();
        proof {
            lemma_skip_skip(b0, start as nat, 4);
            lemma_skip_skip(b0, start as nat, 8);
            lemma_skip_skip(b0, (start + 4) as nat, 4);
            reveal_with_fuel(pow256, 5);
            lemma_le_value_bound(d0.take(4));
            lemma_le_value_bound(d0.skip(4).take(4));
            assert(read_fixed(d0, 4) == Some((VECTOR_CONSTRUCTOR as nat, 4nat)));
            assert(read_fixed(d0.skip(4), 4) == Some((count as nat, 4nat)));
            assert(Self::spec_read(d0) == match read_items::<T>(d0.skip(8), count as nat) {
                Some((ms, k)) => Some((ms, 8 + k)),
                None => None::<(Seq<T::Model>, nat)>,
            });
        }
        let mut total: Vec<T> = Vec::new();
        let mut i: u128 = 0;
        while i < count
            invariant
                i <= count,
                buffer.bytes() == b0,
                b0 == old(buffer).bytes(),
                d0 == old(buffer).rest(),
                start == old(buffer).pos(),
                Self::spec_read(d0) == match read_items::<T>(d0.skip(8), count as nat) {
                    Some((ms, k)) => Some((ms, 8 + k)),
                    None => None::<(Seq<T::Model>, nat)>,
                },
                start + 8 <= buffer.pos() <= b0.len(),
                d0 == b0.skip(start as int),
                buffer.rest() == b0.skip(buffer.pos() as int),
                match read_items::<T>(buffer.rest(), (count - i) as nat) {
                    Some((suf, k)) => read_items::<T>(d0.skip(8), count as nat) == Some(
                        (total.model() + suf, ((buffer.pos() - start - 8) + k) as nat),
                    ),
                    None => read_items::<T>(d0.skip(8), count as nat) is None,
                },
            decreases count - i,
        {
            let ghost p = buffer.pos();
            let ghost rest = buffer.rest();
            let ghost before = total.model();
            match T::read_from(buffer) {
                Some(x) => {
                    let _ = buffer.position();
                    let ghost mx = x.model();
                    total.push(x);
                    proof {
                        let n = (buffer.pos() - p) as nat;
                        lemma_skip_skip(b0, p, n);
                        assert(total.model() =~= before.push(mx));
                        match read_items::<T>(buffer.rest(), (count - i - 1) as nat) {
                            Some((suf, k)) => {
                                assert(before.push(mx) + suf =~= before + (seq![mx] + suf));
                            },
                            None => {},
                        }
                    }
                },
                None => {
                    buffer.rewind(start);
                    return None;
                },
            }
            i = i + 1;
        }
        proof {
            assert(total.model() + Seq::<T::Model>::empty() =~= total.model());
        }
        Some(total)
    }

    fn to_bytes(&self) -> (out: Vec<u8>) {
        let ghost m = self.model();
        let mut total: Vec<u8> = Vec::new();
        proof {
            reveal_with_fuel(pow256, 5);
        }
        write_le(&mut total, 0x1cb5c415, 4);
        let l: u64 = self.len() as u64;
        write_le(&mut total, (l % 4294967296) as u128, 4);
        let ghost header = total@;
        let mut i: usize = 0;
        while i < self.len()
            invariant
                i <= self@.len(),
                m == self.model(),
                total@ == header + items_to_bytes::<T>(m.take(i as int)),
            decreases self@.len() - i,
        {
            let mut part = self[i].to_bytes();
            total.append(&mut part);
            proof {
                lemma_items_to_bytes_push::<T>(m.take(i as int), m[i as int]);
                assert(m.take(i + 1) =~= m.take(i as int).push(m[i as int]));
            }
            i = i + 1;
        }
        assert(m.take(self@.len() as int) =~= m);
        total
    }

    proof fn lemma_read_to_bytes(m: Seq<T::Model>, rest: Seq<u8>) {
        if Self::spec_decodable(m) {
            reveal_with_fuel(pow256, 5);
            let id = le_bytes(VECTOR_CONSTRUCTOR as nat, 4);
            let len = le_bytes(m.len() % pow256(4), 4);
            let items = items_to_bytes::<T>(m);
            let data = Self::spec_to_bytes(m) + rest;
            vstd::arithmetic::div_mod::lemma_small_mod(m.len(), pow256(4));
            lemma_le_bytes_len(m.len(), 4);
            lemma_le_bytes_len(VECTOR_CONSTRUCTOR as nat, 4);
            assert(data =~= id + (len + (items + rest)));
            lemma_read_fixed_roundtrip(VECTOR_CONSTRUCTOR as nat, 4, len + (items + rest));
            lemma_skip_prefix(id, len + (items + rest));
            lemma_read_fixed_roundtrip(m.len(), 4, items + rest);
            lemma_skip_prefix(len, items + rest);
            lemma_skip_skip(data, 4, 4);
            lemma_read_items_roundtrip::<T>(m, rest);
        }
    }

    proof fn lemma_to_bytes_aligned(&self) {
        lemma_le_bytes_len(VECTOR_CONSTRUCTOR as nat, 4);
        lemma_le_bytes_len(self.model().len() % pow256(4), 4);
        lemma_items_aligned::<T>(self@);
    }
}


/// `n` zero bytes.
pub open spec fn zeros(n: nat) -> Seq<u8> {
    Seq::new(n, |i: int| 0u8)
}

/// The length prefix of a TL `bytes` value of `len` bytes: one byte for
/// lengths up to 253, else the marker 254 and the low three bytes of the
/// length.
pub open spec fn bytes_header(len: nat) -> Seq<u8> {
    if len <= 253 {
        seq![len as u8]
    } else {
        seq![254u8] + le_bytes(len % pow256(3), 3)
    }
}

/// The TL encoding of the byte string `s`: its length prefix, its bytes, and
/// zeros up to a multiple of four bytes.
pub open spec fn bytes_to_bytes(s: Seq<u8>) -> Seq<u8> {
    let framed = bytes_header(s.len()) + s;
    framed + zeros(padding_len(framed.len(), 4))
}

/// Decoding a TL `bytes` value from the front of `data`. The first byte
/// gives the length, or, when above 253, says that the next three bytes
/// do. Each later part is read as far as `data` reaches, and a part that
/// `data` cuts short reads as zeros; the padding is computed from the
/// length plus four after the marker 254 and plus one otherwise.
pub open spec fn read_bytes_string(data: Seq<u8>) -> Option<(Seq<u8>, nat)> {
    if data.len() == 0 {
        None
    } else {
        let size = data[0] as nat;
        let r1 = data.skip(1);
        let header_taken = if size <= 253 {
            0
        } else {
            taken(r1, 3)
        };
        let len = if size <= 253 {
            size
        } else {
            le_value(zero_filled(r1, 3))
        };
        let r2 = r1.skip(header_taken as int);
        let body_taken = taken(r2, len);
        let r3 = r2.skip(body_taken as int);
        let additional: nat = if size == 254 {
            4
        } else {
            1
        };
        let pad = padding_len(len + additional, 4);
        Some((zero_filled(r2, len), 1 + header_taken + body_taken + taken(r3, pad)))
    }
}

/// Appends the bytes of `s` to `out`.
pub fn append_slice(out: &mut Vec<u8>, s: &[u8])
    ensures
        final(out)@ == old(out)@ + s@,
{
    let ghost start = out@;
    let mut i: usize = 0;
    while i < s.len()
        invariant
            i <= s@.len(),
            out@ == start + s@.take(i as int),
        decreases s@.len() - i,
    {
        out.push(s[i]);
        assert(out@ =~= start + s@.take(i + 1));
        i = i + 1;
    }
    assert(s@.take(s@.len() as int) =~= s@);
}

/// Appends `n` zero bytes to `out`.
pub fn push_zeros(out: &mut Vec<u8>, n: usize)
    ensures
        final(out)@ == old(out)@ + zeros(n as nat),
{
    let ghost start = out@;
    let mut i: usize = 0;
    while i < n
        invariant
            i <= n,
            out@ == start + zeros(i as nat),
        decreases n - i,
    {
        out.push(0u8);
        assert(out@ =~= start + zeros((i + 1) as nat));
        i = i + 1;
    }
}

/// The TL encoding of the byte string `data`.
pub fn encode_bytes(data: &[u8]) -> (out: Vec<u8>)
    ensures
        out@ == bytes_to_bytes(data@),
{
    let size = data.len();
    let mut total: Vec<u8> = Vec::new();
    if size <= 253 {
        total.push(size as u8);
    } else {
        total.push(254u8);
        proof {
            reveal_with_fuel(pow256, 4);
        }
        write_le(&mut total, (size % 16777216) as u128, 3);
    }
    assert(total@ == bytes_header(size as nat));
    append_slice(&mut total, data);
    let to_extend = calculate_padding_bytes(total.len(), 4);
    push_zeros(&mut total, to_extend);
    total
}

/// Reads a TL `bytes` value as a vector.
fn read_bytes_vec(buffer: &mut TLReader) -> (r: Option<Vec<u8>>)
    ensures
        final(buffer).bytes() == old(buffer).bytes(),
        match read_bytes_string(old(buffer).rest()) {
            Some((m, n)) => r matches Some(x) && x@ == m && final(buffer).pos() == old(
                buffer,
            ).pos() + n,
            None => r is None && final(buffer).pos() == old(buffer).pos(),
        },
{
    let ghost b0 = buffer.bytes();
    let ghost d0 = buffer.rest();
    let start = buffer.position();
    let size = match buffer.read_u8() {
        Some(b) => b,
        None => {
            return None;
        },
    };
    let p1 = buffer.position();
    proof {
        lemma_skip_skip(b0, start as nat, 1);
    }
    let ghost r1 = buffer.rest();
    let len: usize = if size <= 253 {
        size as usize
    } else {
        let header = buffer.read_available(3);
        let p2 = buffer.position();
        proof {
            lemma_skip_skip(b0, p1 as nat, (p2 - p1) as nat);
            reveal_with_fuel(pow256, 4);
            lemma_le_value_bound(header@);
            assert(header@.subrange(0, 3) =~= header@);
        }
        read_le(header.as_slice(), 0, 3) as usize
    };
    let ghost r2 = buffer.rest();
    let p3 = buffer.position();
    let body = buffer.read_available(len);
    let p4 = buffer.position();
    proof {
        lemma_skip_skip(b0, p3 as nat, (p4 - p3) as nat);
    }
    let additional: usize = if size == 254 {
        4
    } else {
        1
    };
    proof {
        reveal_with_fuel(pow256, 4);
        if size > 253 {
            lemma_le_value_bound(zero_filled(r1, 3));
        }
    }
    let left = calculate_padding_bytes(len + additional, 4);
    let _padding = buffer.read_available(left);
    Some(body)
}

/// A boxed slice holding the bytes of `v`.
#[verifier::external_body]
pub(crate) fn boxed_bytes(v: Vec<u8>) -> (b: Box<[u8]>)
    ensures
        b@ == v@,
{
    v.into_boxed_slice()
}

/// An array holding the `N` bytes of `b`.
pub fn array_from_bytes<const N: usize>(b: &[u8]) -> (a: [u8; N])
    requires
        b@.len() == N,
    ensures
        a@ == b@,
{
    let mut a: [u8; N] = [0u8; N];
    let mut i: usize = 0;
    while i < N
        invariant
            i <= N,
            b@.len() == N,
            forall|j: int| 0 <= j < i ==> a@[j] == b@[j],
        decreases N - i,
    {
        a[i] = b[i];
        i = i + 1;
    }
    assert(a@ =~= b@);
    a
}

/// The encoding of a byte string is a whole number of 4-byte words.
pub proof fn lemma_bytes_aligned(s: Seq<u8>)
    ensures
        bytes_to_bytes(s).len() % 4 == 0,
{
    reveal_with_fuel(pow256, 4);
    lemma_le_bytes_len(s.len() % pow256(3), 3);
    let framed = bytes_header(s.len()) + s;
    crate::utils::lemma_padding_len(framed.len(), 4);
}

/// Decoding the encoding of a byte string shorter than `2^24` bytes.
pub proof fn lemma_read_bytes_roundtrip(s: Seq<u8>, rest: Seq<u8>)
    requires
        s.len() < pow256(3),
    ensures
        read_bytes_string(bytes_to_bytes(s) + rest) == Some((s, bytes_to_bytes(s).len())),
{
    reveal_with_fuel(pow256, 4);
    let len = s.len();
    let header = bytes_header(len);
    let framed = header + s;
    let pad = padding_len(framed.len(), 4);
    let enc = bytes_to_bytes(s);
    let data = enc + rest;
    let tail = zeros(pad) + rest;
    if len <= 253 {
        assert(data =~= seq![len as u8] + (s + tail));
        lemma_skip_prefix(seq![len as u8], s + tail);
        lemma_skip_prefix(s, tail);
        lemma_skip_prefix(zeros(pad), rest);
        assert(data.skip(1).skip(0) =~= data.skip(1));
    } else {
        vstd::arithmetic::div_mod::lemma_small_mod(len, pow256(3));
        let le3 = le_bytes(len, 3);
        lemma_le_bytes_len(len, 3);
        lemma_le_value_of_bytes(len, 3);
        assert(data =~= seq![254u8] + (le3 + (s + tail)));
        lemma_skip_prefix(seq![254u8], le3 + (s + tail));
        lemma_skip_prefix(le3, s + tail);
        lemma_skip_prefix(s, tail);
        lemma_skip_prefix(zeros(pad), rest);
    }
}

impl TLObject for Box<[u8]> {
    type Model = Seq<u8>;

    open spec fn model(&self) -> Seq<u8> {
        self@
    }

    open spec fn spec_to_bytes(m: Seq<u8>) -> Seq<u8> {
        bytes_to_bytes(m)
    }

    open spec fn spec_read(data: Seq<u8>) -> Option<(Seq<u8>, nat)> {
        read_bytes_string(data)
    }

    open spec fn spec_decodable(m: Seq<u8>) -> bool {
        m.len() < pow256(3)
    }

    fn read_from(buffer: &mut TLReader) -> (r: Option<Box<[u8]>>) {
        match read_bytes_vec(buffer) {
            Some(v) => Some(boxed_bytes(v)),
            None => None,
        }
    }

    fn to_bytes(&self) -> (out: Vec<u8>) {
        encode_bytes(&**self)
    }

    proof fn lemma_read_to_bytes(m: Seq<u8>, rest: Seq<u8>) {
        if Self::spec_decodable(m) {
            lemma_read_bytes_roundtrip(m, rest);
        }
    }

    proof fn lemma_to_bytes_aligned(&self) {
        lemma_bytes_aligned(self.model());
    }
}

impl<const N: usize> TLObject for Box<[u8; N]> {
    type Model = Seq<u8>;

    open spec fn model(&self) -> Seq<u8> {
        self@
    }

    open spec fn spec_to_bytes(m: Seq<u8>) -> Seq<u8> {
        bytes_to_bytes(m)
    }

    open spec fn spec_read(data: Seq<u8>) -> Option<(Seq<u8>, nat)> {
        match read_bytes_string(data) {
            Some((b, n)) => if b.len() == N {
                Some((b, n))
            } else {
                None
            },
            None => None,
        }
    }

    open spec fn spec_decodable(m: Seq<u8>) -> bool {
        m.len() == N && N < pow256(3)
    }

    fn read_from(buffer: &mut TLReader) -> (r: Option<Box<[u8; N]>>) {
        let start = buffer.position();
        match read_bytes_vec(buffer) {
            Some(v) => {
                if v.len() == N {
                    let a: [u8; N] = array_from_bytes(v.as_slice());
                    Some(Box::new(a))
                } else {
                    buffer.rewind(start);
                    None
                }
            },
            None => None,
        }
    }

    fn to_bytes(&self) -> (out: Vec<u8>) {
        encode_bytes(self.as_slice())
    }

    proof fn lemma_read_to_bytes(m: Seq<u8>, rest: Seq<u8>) {
        if Self::spec_decodable(m) {
            lemma_read_bytes_roundtrip(m, rest);
        }
    }

    proof fn lemma_to_bytes_aligned(&self) {
        lemma_bytes_aligned(self.model());
    }
}


/// Reading back a vector: the encoding of a vector of fewer than `2^32`
/// items, each of which decodes back, followed by anything, decodes to the
/// vector and consumes exactly its encoding. For `i32`, `u32`, `i64` and
/// `i128` every value decodes back (their `spec_decodable` is `true`), and
/// for `Int256` see `lemma_int256_decodable`.
pub proof fn lemma_vec_read_to_bytes<T: TLObject>(v: &Vec<T>, rest: Seq<u8>)
    requires
        v@.len() < pow256(4),
        forall|i: int| 0 <= i < v@.len() ==> T::spec_decodable(#[trigger] v@[i].model()),
    ensures
        <Vec<T> as TLObject>::spec_read(<Vec<T> as TLObject>::spec_to_bytes(v.model()) + rest)
            == Some((v.model(), <Vec<T> as TLObject>::spec_to_bytes(v.model()).len())),
{
    let m = v.model();
    assert forall|i: int| 0 <= i < m.len() implies T::spec_decodable(#[trigger] m[i]) by {
        assert(m[i] == v@[i].model());
    }
    <Vec<T> as TLObject>::lemma_read_to_bytes(m, rest);
}

/// Reads a `T` at the reader's position; where the bytes there do not hold
/// one, moves the reader back to `start` (the start of the enclosing value).
pub fn read_or_rewind<T: TLObject>(buffer: &mut TLReader, start: usize) -> (r: Option<T>)
    requires
        start <= old(buffer).pos(),
    ensures
        final(buffer).bytes() == old(buffer).bytes(),
        match T::spec_read(old(buffer).rest()) {
            Some((m, n)) => r matches Some(x) && x.model() == m && final(buffer).pos() == old(
                buffer,
            ).pos() + n && final(buffer).rest() == old(buffer).rest().skip(n as int),
            None => r is None && final(buffer).pos() == start,
        },
{
    let p = buffer.position();
    let r = T::read_from(buffer);
    match r {
        Some(x) => {
            let q = buffer.position();
            proof {
                lemma_skip_skip(buffer.bytes(), p as nat, (q - p) as nat);
            }
            Some(x)
        },
        None => {
            buffer.rewind(start);
            None
        },
    }
}

/// Reads a constructor number and checks that it is `id`: how many bytes it
/// takes, or `None` when the bytes there hold another one or too few.
pub open spec fn expect_constructor(data: Seq<u8>, id: u32) -> Option<nat> {
    match <u32 as TLObject>::spec_read(data) {
        Some((x, n)) => if x == id {
            Some(n)
        } else {
            None
        },
        None => None,
    }
}

/// Reads the constructor number at the reader's position and checks that it
/// is `id`; otherwise leaves the reader where it was.
pub fn read_constructor(buffer: &mut TLReader, id: u32) -> (ok: bool)
    ensures
        final(buffer).bytes() == old(buffer).bytes(),
        match expect_constructor(old(buffer).rest(), id) {
            Some(n) => ok && final(buffer).pos() == old(buffer).pos() + n && final(buffer).rest()
                == old(buffer).rest().skip(n as int),
            None => !ok && final(buffer).pos() == old(buffer).pos(),
        },
{
    let start = buffer.position();
    match read_or_rewind::<u32>(buffer, start) {
        Some(x) => {
            if x == id {
                true
            } else {
                buffer.rewind(start);
                false
            }
        },
        None => false,
    }
}

/// Decoding a field from its encoding followed by anything leaves exactly
/// what followed.
pub proof fn lemma_read_field<T: TLObject>(m: T::Model, tail: Seq<u8>)
    requires
        T::spec_decodable(m),
    ensures
        T::spec_read(T::spec_to_bytes(m) + tail) == Some((m, T::spec_to_bytes(m).len())),
        (T::spec_to_bytes(m) + tail).skip(T::spec_to_bytes(m).len() as int) == tail,
{
    T::lemma_read_to_bytes(m, tail);
    lemma_skip_prefix(T::spec_to_bytes(m), tail);
}

/// Decoding a constructor number from its encoding followed by anything.
pub proof fn lemma_expect_constructor(id: u32, tail: Seq<u8>)
    ensures
        <u32 as TLObject>::spec_to_bytes(id).len() == 4,
        expect_constructor(<u32 as TLObject>::spec_to_bytes(id) + tail, id) == Some(4nat),
        (<u32 as TLObject>::spec_to_bytes(id) + tail).skip(4) == tail,
{
    lemma_le_bytes_len(id as nat, 4);
    lemma_read_field::<u32>(id, tail);
}

/// A signed 256-bit integer, held as its 32 bytes in two's complement,
/// least significant first.
#[derive(Clone, Copy, Debug)]
pub struct Int256 {
    pub le_bytes: [u8; 32],
}

impl Int256 {
    /// The number the bytes stand for.
    pub open spec fn value(&self) -> int {
        to_signed(le_value(self.le_bytes@), 32)
    }

    /// The integer whose little-endian two's complement bytes are `bytes`.
    pub fn from_le_bytes(bytes: [u8; 32]) -> (r: Int256)
        ensures
            r.le_bytes@ == bytes@,
    {
        Int256 { le_bytes: bytes }
    }

    /// The integer whose big-endian two's complement bytes are `bytes`.
    pub fn from_be_bytes(bytes: [u8; 32]) -> (r: Int256)
        ensures
            r.le_bytes@ == bytes@.reverse(),
    {
        let mut le: [u8; 32] = [0u8; 32];
        let mut i: usize = 0;
        while i < 32
            invariant
                i <= 32,
                forall|j: int| 0 <= j < i ==> le@[j] == bytes@[31 - j],
            decreases 32 - i,
        {
            le[i] = bytes[31 - i];
            i = i + 1;
        }
        assert(le@ =~= bytes@.reverse());
        Int256 { le_bytes: le }
    }

    /// The little-endian two's complement bytes of the integer.
    pub fn to_le_bytes(&self) -> (r: [u8; 32])
        ensures
            r@ == self.le_bytes@,
    {
        self.le_bytes
    }
}

/// Every 256-bit integer decodes back from its encoding.
pub proof fn lemma_int256_decodable(x: Int256)
    ensures
        <Int256 as TLObject>::spec_decodable(x.model()),
{
}

impl TLObject for Int256 {
    type Model = Seq<u8>;

    open spec fn model(&self) -> Seq<u8> {
        self.le_bytes@
    }

    open spec fn spec_to_bytes(m: Seq<u8>) -> Seq<u8> {
        m
    }

    open spec fn spec_read(data: Seq<u8>) -> Option<(Seq<u8>, nat)> {
        if data.len() >= 32 {
            Some((data.take(32), 32))
        } else {
            None
        }
    }

    open spec fn spec_decodable(m: Seq<u8>) -> bool {
        m.len() == 32
    }

    fn read_from(buffer: &mut TLReader) -> (r: Option<Int256>) {
        if buffer.remaining() < 32 {
            return None;
        }
        let v = buffer.read_available(32);
        let a: [u8; 32] = array_from_bytes(v.as_slice());
        Some(Int256 { le_bytes: a })
    }

    fn to_bytes(&self) -> (out: Vec<u8>) {
        let mut total: Vec<u8> = Vec::new();
        append_slice(&mut total, self.le_bytes.as_slice());
        assert(total@ =~= self.le_bytes@);
        total
    }

    proof fn lemma_read_to_bytes(m: Seq<u8>, rest: Seq<u8>) {
        if Self::spec_decodable(m) {
            lemma_skip_prefix(m, rest);
        }
    }

    proof fn lemma_to_bytes_aligned(&self) {
    }
}

} // verus!
