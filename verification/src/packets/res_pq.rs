//! `resPQ`: the server's answer with its nonce, the number `pq` to factor and
//! the fingerprints of the RSA keys it accepts.
use vstd::prelude::*;
use crate::reader::TLReader;
use crate::traits::tl_object::{TLObject, expect_constructor, read_constructor, read_or_rewind, lemma_read_field, lemma_expect_constructor};
use crate::traits::tl_object::{signed_le_bytes, bytes_to_bytes, to_unsigned};
use crate::le::{le_bytes, pow256, lemma_le_bytes_len};
use crate::traits::tl_object::{items_to_bytes, VECTOR_CONSTRUCTOR};

verus! {

/// The constructor number of `ResPQ`.
pub const RES_PQ_CONSTRUCTOR: u32 = 0x05162463;

#[derive(Debug)]
pub struct ResPQ {
    pub nonce: i128,
    pub server_nonce: i128,
    pub pq: Box<[u8; 8]>,
    pub server_public_key_fingerprints: Vec<i64>,
}

/// The value that a `ResPQ` stands for.
pub struct ResPQModel {
    pub nonce: i128,
    pub server_nonce: i128,
    pub pq: Seq<u8>,
    pub server_public_key_fingerprints: Seq<i64>,
}

impl TLObject for ResPQ {
    type Model = ResPQModel;

    open spec fn model(&self) -> ResPQModel {
        ResPQModel {
            nonce: self.nonce.model(),
            server_nonce: self.server_nonce.model(),
            pq: self.pq.model(),
            server_public_key_fingerprints: self.server_public_key_fingerprints.model(),
        }
    }

    open spec fn spec_to_bytes(m: ResPQModel) -> Seq<u8> {
        <u32 as TLObject>::spec_to_bytes(RES_PQ_CONSTRUCTOR)
            + <i128 as TLObject>::spec_to_bytes(m.nonce)
            + <i128 as TLObject>::spec_to_bytes(m.server_nonce)
            + <Box<[u8; 8]> as TLObject>::spec_to_bytes(m.pq)
            + <Vec<i64> as TLObject>::spec_to_bytes(m.server_public_key_fingerprints)
    }

    open spec fn spec_read(data: Seq<u8>) -> Option<(ResPQModel, nat)> {
        match expect_constructor(data, RES_PQ_CONSTRUCTOR) {
            Some(n0) => {
                let d1 = data.skip(n0 as int);
                match <i128 as TLObject>::spec_read(d1) {
                    Some((nonce, n1)) => {
                        let d2 = d1.skip(n1 as int);
                        match <i128 as TLObject>::spec_read(d2) {
                            Some((server_nonce, n2)) => {
                                let d3 = d2.skip(n2 as int);
                                match <Box<[u8; 8]> as TLObject>::spec_read(d3) {
                                    Some((pq, n3)) => {
                                        let d4 = d3.skip(n3 as int);
                                        match <Vec<i64> as TLObject>::spec_read(d4) {
                                            Some((server_public_key_fingerprints, n4)) => {
                                                Some((
                                                    ResPQModel { nonce, server_nonce, pq, server_public_key_fingerprints },
                                                    n0 + n1 + n2 + n3 + n4,
                                                ))
                                            },
                                            None => None,
                                        }
                                    },
                                    None => None,
                                }
                            },
                            None => None,
                        }
                    },
                    None => None,
                }
            },
            None => None,
        }
    }

    open spec fn spec_decodable(m: ResPQModel) -> bool {
        &&& <i128 as TLObject>::spec_decodable(m.nonce)
        &&& <i128 as TLObject>::spec_decodable(m.server_nonce)
        &&& <Box<[u8; 8]> as TLObject>::spec_decodable(m.pq)
        &&& <Vec<i64> as TLObject>::spec_decodable(m.server_public_key_fingerprints)
    }

    fn read_from(buffer: &mut TLReader) -> (r: Option<ResPQ>) {
        let start = buffer.position();
        if !read_constructor(buffer, RES_PQ_CONSTRUCTOR) {
            return None;
        }
        let nonce = match read_or_rewind::<i128>(buffer, start) {
            Some(v) => v,
            None => {
                return None;
            },
        };
        let server_nonce = match read_or_rewind::<i128>(buffer, start) {
            Some(v) => v,
            None => {
                return None;
            },
        };
        let pq = match read_or_rewind::<Box<[u8; 8]>>(buffer, start) {
            Some(v) => v,
            None => {
                return None;
            },
        };
        let server_public_key_fingerprints = match read_or_rewind::<Vec<i64>>(buffer, start) {
            Some(v) => v,
            None => {
                return None;
            },
        };
        Some(ResPQ { nonce, server_nonce, pq, server_public_key_fingerprints })
    }

    fn to_bytes(&self) -> (out: Vec<u8>) {
        let mut total: Vec<u8> = Vec::new();
        let mut part = RES_PQ_CONSTRUCTOR.to_bytes();
        total.append(&mut part);
        let mut part = self.nonce.to_bytes();
        total.append(&mut part);
        let mut part = self.server_nonce.to_bytes();
        total.append(&mut part);
        let mut part = self.pq.to_bytes();
        total.append(&mut part);
        let mut part = self.server_public_key_fingerprints.to_bytes();
        total.append(&mut part);
        total
    }

    proof fn lemma_read_to_bytes(m: ResPQModel, rest: Seq<u8>) {
        if Self::spec_decodable(m) {
            let e0 = <u32 as TLObject>::spec_to_bytes(RES_PQ_CONSTRUCTOR);
            let e1 = <i128 as TLObject>::spec_to_bytes(m.nonce);
            let e2 = <i128 as TLObject>::spec_to_bytes(m.server_nonce);
            let e3 = <Box<[u8; 8]> as TLObject>::spec_to_bytes(m.pq);
            let e4 = <Vec<i64> as TLObject>::spec_to_bytes(m.server_public_key_fingerprints);
            let t5 = rest;
            let t4 = e4 + t5;
            let t3 = e3 + t4;
            let t2 = e2 + t3;
            let t1 = e1 + t2;
            assert(Self::spec_to_bytes(m) + rest =~= e0 + t1);
            lemma_expect_constructor(RES_PQ_CONSTRUCTOR, t1);
            lemma_read_field::<i128>(m.nonce, t2);
            lemma_read_field::<i128>(m.server_nonce, t3);
            lemma_read_field::<Box<[u8; 8]>>(m.pq, t4);
            lemma_read_field::<Vec<i64>>(m.server_public_key_fingerprints, t5);
        }
    }

    #[verifier::spinoff_prover]
    proof fn lemma_to_bytes_aligned(&self) {
        lemma_expect_constructor(RES_PQ_CONSTRUCTOR, Seq::empty());
        self.nonce.lemma_to_bytes_aligned();
        self.server_nonce.lemma_to_bytes_aligned();
        self.pq.lemma_to_bytes_aligned();
        self.server_public_key_fingerprints.lemma_to_bytes_aligned();
        let m = self.model();
        let l0 = <u32 as TLObject>::spec_to_bytes(RES_PQ_CONSTRUCTOR).len();
        let l1 = <i128 as TLObject>::spec_to_bytes(m.nonce).len();
        let l2 = <i128 as TLObject>::spec_to_bytes(m.server_nonce).len();
        let l3 = <Box<[u8; 8]> as TLObject>::spec_to_bytes(m.pq).len();
        let l4 = <Vec<i64> as TLObject>::spec_to_bytes(m.server_public_key_fingerprints).len();
        assert((l0 + l1 + l2 + l3 + l4) % 4 == 0) by (nonlinear_arith)
            requires
                l0 % 4 == 0,
                l1 % 4 == 0,
                l2 % 4 == 0,
                l3 % 4 == 0,
                l4 % 4 == 0,
        ;
        assert(Self::spec_to_bytes(m).len() == l0 + l1 + l2 + l3 + l4);
    }
}

/// The wire layout of `resPQ`: the constructor number as four
/// little-endian bytes, then, in the schema's order:
/// - `nonce` as a 128-bit little-endian two's complement integer;
/// - `server_nonce` as a 128-bit little-endian two's complement integer;
/// - `pq` as a TL byte string of 8 bytes;
/// - `server_public_key_fingerprints` as a TL vector of 64-bit integers;
/// so the bytes that `to_bytes` writes carry each field at its place in
/// the schema.
pub proof fn lemma_res_pq_layout(m: ResPQModel)
    ensures
        <ResPQ as TLObject>::spec_to_bytes(m) == le_bytes(RES_PQ_CONSTRUCTOR as nat, 4)
            + signed_le_bytes(m.nonce as int, 16)
            + signed_le_bytes(m.server_nonce as int, 16)
            + bytes_to_bytes(m.pq)
            + le_bytes(VECTOR_CONSTRUCTOR as nat, 4) + le_bytes(m.server_public_key_fingerprints.len() % pow256(4), 4)
            + items_to_bytes::<i64>(m.server_public_key_fingerprints),
        <ResPQ as TLObject>::spec_to_bytes(m).subrange(4, 20) == signed_le_bytes(m.nonce as int, 16),
        <ResPQ as TLObject>::spec_to_bytes(m).subrange(20, 36) == signed_le_bytes(m.server_nonce as int, 16),
{
    lemma_le_bytes_len(RES_PQ_CONSTRUCTOR as nat, 4);
    lemma_le_bytes_len(to_unsigned(m.nonce as int, 16), 16);
    lemma_le_bytes_len(to_unsigned(m.server_nonce as int, 16), 16);
    let w = <ResPQ as TLObject>::spec_to_bytes(m);
    assert(w.subrange(4, 20) =~= signed_le_bytes(m.nonce as int, 16));
    assert(w.subrange(20, 36) =~= signed_le_bytes(m.server_nonce as int, 16));
}

/// Decoding `resPQ` laid out on the wire as the schema says, whatever follows
/// it: each field comes back from its own place, and exactly the message is
/// consumed.
pub proof fn lemma_res_pq_read_layout(nonce: i128, server_nonce: i128, pq: Seq<u8>, server_public_key_fingerprints: Seq<i64>, rest: Seq<u8>)
    requires
        pq.len() == 8,
        server_public_key_fingerprints.len() < 0x100000000,
    ensures
        <ResPQ as TLObject>::spec_read(
            le_bytes(RES_PQ_CONSTRUCTOR as nat, 4)
            + signed_le_bytes(nonce as int, 16)
            + signed_le_bytes(server_nonce as int, 16)
            + bytes_to_bytes(pq)
            + le_bytes(VECTOR_CONSTRUCTOR as nat, 4) + le_bytes(server_public_key_fingerprints.len() % pow256(4), 4)
            + items_to_bytes::<i64>(server_public_key_fingerprints) + rest,
        ) == Some((ResPQModel { nonce, server_nonce, pq, server_public_key_fingerprints }, (le_bytes(RES_PQ_CONSTRUCTOR as nat, 4)
            + signed_le_bytes(nonce as int, 16)
            + signed_le_bytes(server_nonce as int, 16)
            + bytes_to_bytes(pq)
            + le_bytes(VECTOR_CONSTRUCTOR as nat, 4) + le_bytes(server_public_key_fingerprints.len() % pow256(4), 4)
            + items_to_bytes::<i64>(server_public_key_fingerprints)).len())),
{
    reveal_with_fuel(pow256, 5);
    let m = ResPQModel { nonce, server_nonce, pq, server_public_key_fingerprints };
    lemma_res_pq_layout(m);
    <ResPQ as TLObject>::lemma_read_to_bytes(m, rest);
}

} // verus!
