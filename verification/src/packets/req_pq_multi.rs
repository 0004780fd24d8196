//! `req_pq_multi`: the client's opening request, carrying its random nonce.
use vstd::prelude::*;
use crate::reader::TLReader;
use crate::traits::tl_object::{TLObject, expect_constructor, read_constructor, read_or_rewind, lemma_read_field, lemma_expect_constructor};
use crate::traits::tl_object::{signed_le_bytes, to_unsigned};
use crate::le::{le_bytes, pow256, lemma_le_bytes_len};

verus! {

/// The constructor number of `ReqPQMulti`.
pub const REQ_PQ_MULTI_CONSTRUCTOR: u32 = 0xbe7e8ef1;

#[derive(Debug)]
pub struct ReqPQMulti {
    pub nonce: i128,
}

/// The value that a `ReqPQMulti` stands for.
pub struct ReqPQMultiModel {
    pub nonce: i128,
}

impl TLObject for ReqPQMulti {
    type Model = ReqPQMultiModel;

    open spec fn model(&self) -> ReqPQMultiModel {
        ReqPQMultiModel {
            nonce: self.nonce.model(),
        }
    }

    open spec fn spec_to_bytes(m: ReqPQMultiModel) -> Seq<u8> {
        <u32 as TLObject>::spec_to_bytes(REQ_PQ_MULTI_CONSTRUCTOR)
            + <i128 as TLObject>::spec_to_bytes(m.nonce)
    }

    open spec fn spec_read(data: Seq<u8>) -> Option<(ReqPQMultiModel, nat)> {
        match expect_constructor(data, REQ_PQ_MULTI_CONSTRUCTOR) {
            Some(n0) => {
                let d1 = data.skip(n0 as int);
                match <i128 as TLObject>::spec_read(d1) {
                    Some((nonce, n1)) => {
                        Some((
                            ReqPQMultiModel { nonce },
                            n0 + n1,
                        ))
                    },
                    None => None,
                }
            },
            None => None,
        }
    }

    open spec fn spec_decodable(m: ReqPQMultiModel) -> bool {
        &&& <i128 as TLObject>::spec_decodable(m.nonce)
    }

    fn read_from(buffer: &mut TLReader) -> (r: Option<ReqPQMulti>) {
        let start = buffer.position();
        if !read_constructor(buffer, REQ_PQ_MULTI_CONSTRUCTOR) {
            return None;
        }
        let nonce = match read_or_rewind::<i128>(buffer, start) {
            Some(v) => v,
            None => {
                return None;
            },
        };
        Some(ReqPQMulti { nonce })
    }

    fn to_bytes(&self) -> (out: Vec<u8>) {
        let mut total: Vec<u8> = Vec::new();
        let mut part = REQ_PQ_MULTI_CONSTRUCTOR.to_bytes();
        total.append(&mut part);
        let mut part = self.nonce.to_bytes();
        total.append(&mut part);
        total
    }

    proof fn lemma_read_to_bytes(m: ReqPQMultiModel, rest: Seq<u8>) {
        if Self::spec_decodable(m) {
            let e0 = <u32 as TLObject>::spec_to_bytes(REQ_PQ_MULTI_CONSTRUCTOR);
            let e1 = <i128 as TLObject>::spec_to_bytes(m.nonce);
            let t2 = rest;
            let t1 = e1 + t2;
            assert(Self::spec_to_bytes(m) + rest =~= e0 + t1);
            lemma_expect_constructor(REQ_PQ_MULTI_CONSTRUCTOR, t1);
            lemma_read_field::<i128>(m.nonce, t2);
        }
    }

    #[verifier::spinoff_prover]
    proof fn lemma_to_bytes_aligned(&self) {
        lemma_expect_constructor(REQ_PQ_MULTI_CONSTRUCTOR, Seq::empty());
        self.nonce.lemma_to_bytes_aligned();
        let m = self.model();
        let l0 = <u32 as TLObject>::spec_to_bytes(REQ_PQ_MULTI_CONSTRUCTOR).len();
        let l1 = <i128 as TLObject>::spec_to_bytes(m.nonce).len();
        assert((l0 + l1) % 4 == 0) by (nonlinear_arith)
            requires
                l0 % 4 == 0,
                l1 % 4 == 0,
        ;
        assert(Self::spec_to_bytes(m).len() == l0 + l1);
    }
}

/// The wire layout of `req_pq_multi`: the constructor number as four
/// little-endian bytes, then, in the schema's order:
/// - `nonce` as a 128-bit little-endian two's complement integer;
/// so the bytes that `to_bytes` writes carry each field at its place in
/// the schema.
pub proof fn lemma_req_pq_multi_layout(m: ReqPQMultiModel)
    ensures
        <ReqPQMulti as TLObject>::spec_to_bytes(m) == le_bytes(REQ_PQ_MULTI_CONSTRUCTOR as nat, 4)
            + signed_le_bytes(m.nonce as int, 16),
        <ReqPQMulti as TLObject>::spec_to_bytes(m).subrange(4, 20) == signed_le_bytes(m.nonce as int, 16),
{
    lemma_le_bytes_len(REQ_PQ_MULTI_CONSTRUCTOR as nat, 4);
    lemma_le_bytes_len(to_unsigned(m.nonce as int, 16), 16);
    let w = <ReqPQMulti as TLObject>::spec_to_bytes(m);
    assert(w.subrange(4, 20) =~= signed_le_bytes(m.nonce as int, 16));
}

/// Decoding `req_pq_multi` laid out on the wire as the schema says, whatever follows
/// it: each field comes back from its own place, and exactly the message is
/// consumed.
pub proof fn lemma_req_pq_multi_read_layout(nonce: i128, rest: Seq<u8>)
    ensures
        <ReqPQMulti as TLObject>::spec_read(
            le_bytes(REQ_PQ_MULTI_CONSTRUCTOR as nat, 4)
            + signed_le_bytes(nonce as int, 16) + rest,
        ) == Some((ReqPQMultiModel { nonce }, (le_bytes(REQ_PQ_MULTI_CONSTRUCTOR as nat, 4)
            + signed_le_bytes(nonce as int, 16)).len())),
{
    reveal_with_fuel(pow256, 5);
    let m = ReqPQMultiModel { nonce };
    lemma_req_pq_multi_layout(m);
    <ReqPQMulti as TLObject>::lemma_read_to_bytes(m, rest);
}

} // verus!
