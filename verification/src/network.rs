//! The abridged TCP transport: each message travels behind its length in
//! 4-byte words, in one byte, or after the marker 127 in three more.
use vstd::prelude::*;
use crate::le::{le_bytes, le_value, pow256, write_le, read_le, lemma_le_bytes_len, lemma_le_value_of_bytes, lemma_le_value_bound};
use crate::traits::tl_object::append_slice;

verus! {

/// The first byte of an abridged frame whose length follows in three more bytes.
pub const ABRIDGED_EXTENDED_LENGTH: u8 = 127;

/// The length prefix of an abridged frame for a payload of `len` bytes.
pub open spec fn abridged_header(len: nat) -> Seq<u8> {
    let words = len / 4;
    if words < 127 {
        seq![words as u8]
    } else {
        seq![127u8] + le_bytes(words % pow256(3), 3)
    }
}

/// The abridged frame of `payload`: its length prefix, then the payload.
pub open spec fn abridged_frame(payload: Seq<u8>) -> Seq<u8> {
    abridged_header(payload.len()) + payload
}

/// The payload length, in bytes, that a frame announces with first byte
/// `first` and, after the marker 127, the three bytes `extension`.
pub open spec fn abridged_declared_len(first: u8, extension: Seq<u8>) -> nat {
    if first == 127 {
        4 * le_value(extension)
    } else {
        4 * first as nat
    }
}

/// Frames `payload` for the abridged transport.
pub fn prepare_abridged_payload(payload: &Vec<u8>) -> (r: Vec<u8>)
    ensures
        r@ == abridged_frame(payload@),
{
    let size = payload.len() / 4;
    let mut framed: Vec<u8> = Vec::new();
    if size < 127 {
        framed.push(size as u8);
    } else {
        framed.push(127u8);
        proof {
            reveal_with_fuel(pow256, 4);
        }
        write_le(&mut framed, (size % 16777216) as u128, 3);
    }
    append_slice(&mut framed, payload.as_slice());
    framed
}

/// The payload length, in bytes, that a frame announces with first byte
/// `first` and, where `first` is 127, the three bytes `extension` after it
/// (ignored otherwise).
pub fn abridged_payload_len(first: u8, extension: &[u8; 3]) -> (len: usize)
    ensures
        len == abridged_declared_len(first, extension@),
{
    if first == 127 {
        proof {
            reveal_with_fuel(pow256, 4);
            lemma_le_value_bound(extension@);
            assert(extension@.subrange(0, 3) =~= extension@);
        }
        let words = read_le(extension.as_slice(), 0, 3) as usize;
        words * 4
    } else {
        first as usize * 4
    }
}

/// Reading back a frame: for a payload of whole words, fewer than `2^24`,
/// the prefix announces the payload's length, and the payload follows it.
pub proof fn lemma_abridged_roundtrip(payload: Seq<u8>)
    requires
        payload.len() % 4 == 0,
        payload.len() / 4 < pow256(3),
    ensures
        ({
            let frame = abridged_frame(payload);
            let header_len: int = if frame[0] == 127 {
                4
            } else {
                1
            };
            &&& abridged_declared_len(frame[0], frame.subrange(1, 4)) == payload.len()
            &&& frame.skip(header_len) == payload
        }),
{
    reveal_with_fuel(pow256, 4);
    let words = payload.len() / 4;
    let frame = abridged_frame(payload);
    if words < 127 {
        assert(frame.skip(1) =~= payload);
    } else {
        vstd::arithmetic::div_mod::lemma_small_mod(words, pow256(3));
        lemma_le_bytes_len(words, 3);
        lemma_le_value_of_bytes(words, 3);
        assert(frame.subrange(1, 4) =~= le_bytes(words, 3));
        assert(frame.skip(4) =~= payload);
    }
}

} // verus!
