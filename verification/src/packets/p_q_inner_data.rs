//! `p_q_inner_data`: the factorization of `pq` and the client's new nonce,
//! which the client RSA-encrypts for the server.
use vstd::prelude::*;
use crate::reader::TLReader;
use crate::traits::tl_object::{TLObject, Int256, expect_constructor, read_constructor, read_or_rewind, lemma_read_field, lemma_expect_constructor};
use crate::traits::tl_object::{signed_le_bytes, bytes_to_bytes, to_unsigned};
use crate::le::{le_bytes, pow256, lemma_le_bytes_len};

verus! {

/// The constructor number of `PQInnerData`.
pub const P_Q_INNER_DATA_CONSTRUCTOR: u32 = 0x83c95aec;

#[derive(Debug)]
pub struct PQInnerData {
    pub pq: Box<[u8; 8]>,
    pub p: Box<[u8; 4]>,
    pub q: Box<[u8; 4]>,
    pub nonce: i128,
    pub server_nonce: i128,
    pub new_nonce: Int256,
}

/// The value that a `PQInnerData` stands for.
pub struct PQInnerDataModel {
    pub pq: Seq<u8>,
    pub p: Seq<u8>,
    pub q: Seq<u8>,
    pub nonce: i128,
    pub server_nonce: i128,
    pub new_nonce: Seq<u8>,
}

impl TLObject for PQInnerData {
    type Model = PQInnerDataModel;

    open spec fn model(&self) -> PQInnerDataModel {
        PQInnerDataModel {
            pq: self.pq.model(),
            p: self.p.model(),
            q: self.q.model(),
            nonce: self.nonce.model(),
            server_nonce: self.server_nonce.model(),
            new_nonce: self.new_nonce.model(),
        }
    }

    open spec fn spec_to_bytes(m: PQInnerDataModel) -> Seq<u8> {
        <u32 as TLObject>::spec_to_bytes(P_Q_INNER_DATA_CONSTRUCTOR)
            + <Box<[u8; 8]> as TLObject>::spec_to_bytes(m.pq)
            + <Box<[u8; 4]> as TLObject>::spec_to_bytes(m.p)
            + <Box<[u8; 4]> as TLObject>::spec_to_bytes(m.q)
            + <i128 as TLObject>::spec_to_bytes(m.nonce)
            + <i128 as TLObject>::spec_to_bytes(m.server_nonce)
            + <Int256 as TLObject>::spec_to_bytes(m.new_nonce)
    }

    open spec fn spec_read(data: Seq<u8>) -> Option<(PQInnerDataModel, nat)> {
        match expect_constructor(data, P_Q_INNER_DATA_CONSTRUCTOR) {
            Some(n0) => {
                let d1 = data.skip(n0 as int);
                match <Box<[u8; 8]> as TLObject>::spec_read(d1) {
                    Some((pq, n1)) => {
                        let d2 = d1.skip(n1 as int);
                        match <Box<[u8; 4]> as TLObject>::spec_read(d2) {
                            Some((p, n2)) => {
                                let d3 = d2.skip(n2 as int);
                                match <Box<[u8; 4]> as TLObject>::spec_read(d3) {
                                    Some((q, n3)) => {
                                        let d4 = d3.skip(n3 as int);
                                        match <i128 as TLObject>::spec_read(d4) {
                                            Some((nonce, n4)) => {
                                                let d5 = d4.skip(n4 as int);
                                                match <i128 as TLObject>::spec_read(d5) {
                                                    Some((server_nonce, n5)) => {
                                                        let d6 = d5.skip(n5 as int);
                                                        match <Int256 as TLObject>::spec_read(d6) {
                                                            Some((new_nonce, n6)) => {
                                                                Some((
                                                                    PQInnerDataModel { pq, p, q, nonce, server_nonce, new_nonce },
                                                                    n0 + n1 + n2 + n3 + n4 + n5 + n6,
                                                                ))
                                                            },
                                                            None => None,
                                                        }
                                                    },
                                                    None => None,
                                                }
                                            },
                                            None => None,
                                        }
                                    },
                                    None => None,
                                }
                            },
                            None => None,
                        }
                    },
                    None => None,
                }
            },
            None => None,
        }
    }

    open spec fn spec_decodable(m: PQInnerDataModel) -> bool {
        &&& <Box<[u8; 8]> as TLObject>::spec_decodable(m.pq)
        &&& <Box<[u8; 4]> as TLObject>::spec_decodable(m.p)
        &&& <Box<[u8; 4]> as TLObject>::spec_decodable(m.q)
        &&& <i128 as TLObject>::spec_decodable(m.nonce)
        &&& <i128 as TLObject>::spec_decodable(m.server_nonce)
        &&& <Int256 as TLObject>::spec_decodable(m.new_nonce)
    }

    fn read_from(buffer: &mut TLReader) -> (r: Option<PQInnerData>) {
        let start = buffer.position();
        if !read_constructor(buffer, P_Q_INNER_DATA_CONSTRUCTOR) {
            return None;
        }
        let pq = match read_or_rewind::<Box<[u8; 8]>>(buffer, start) {
            Some(v) => v,
            None => {
                return None;
            },
        };
        let p = match read_or_rewind::<Box<[u8; 4]>>(buffer, start) {
            Some(v) => v,
            None => {
                return None;
            },
        };
        let q = match read_or_rewind::<Box<[u8; 4]>>(buffer, start) {
            Some(v) => v,
            None => {
                return None;
            },
        };
        let nonce = match read_or_rewind::<i128>(buffer, start) {
            Some(v) => v,
            None => {
                return None;
            },
        };
        let server_nonce = match read_or_rewind::<i128>(buffer, start) {
            Some(v) => v,
            None => {
                return None;
            },
        };
        let new_nonce = match read_or_rewind::<Int256>(buffer, start) {
            Some(v) => v,
            None => {
                return None;
            },
        };
        Some(PQInnerData { pq, p, q, nonce, server_nonce, new_nonce })
    }

    fn to_bytes(&self) -> (out: Vec<u8>) {
        let mut total: Vec<u8> = Vec::new();
        let mut part = P_Q_INNER_DATA_CONSTRUCTOR.to_bytes();
        total.append(&mut part);
        let mut part = self.pq.to_bytes();
        total.append(&mut part);
        let mut part = self.p.to_bytes();
        total.append(&mut part);
        let mut part = self.q.to_bytes();
        total.append(&mut part);
        let mut part = self.nonce.to_bytes();
        total.append(&mut part);
        let mut part = self.server_nonce.to_bytes();
        total.append(&mut part);
        let mut part = self.new_nonce.to_bytes();
        total.append(&mut part);
        total
    }

    proof fn lemma_read_to_bytes(m: PQInnerDataModel, rest: Seq<u8>) {
        if Self::spec_decodable(m) {
            let e0 = <u32 as TLObject>::spec_to_bytes(P_Q_INNER_DATA_CONSTRUCTOR);
            let e1 = <Box<[u8; 8]> as TLObject>::spec_to_bytes(m.pq);
            let e2 = <Box<[u8; 4]> as TLObject>::spec_to_bytes(m.p);
            let e3 = <Box<[u8; 4]> as TLObject>::spec_to_bytes(m.q);
            let e4 = <i128 as TLObject>::spec_to_bytes(m.nonce);
            let e5 = <i128 as TLObject>::spec_to_bytes(m.server_nonce);
            let e6 = <Int256 as TLObject>::spec_to_bytes(m.new_nonce);
            let t7 = rest;
            let t6 = e6 + t7;
            let t5 = e5 + t6;
            let t4 = e4 + t5;
            let t3 = e3 + t4;
            let t2 = e2 + t3;
            let t1 = e1 + t2;
            assert(Self::spec_to_bytes(m) + rest =~= e0 + t1);
            lemma_expect_constructor(P_Q_INNER_DATA_CONSTRUCTOR, t1);
            lemma_read_field::<Box<[u8; 8]>>(m.pq, t2);
            lemma_read_field::<Box<[u8; 4]>>(m.p, t3);
            lemma_read_field::<Box<[u8; 4]>>(m.q, t4);
            lemma_read_field::<i128>(m.nonce, t5);
            lemma_read_field::<i128>(m.server_nonce, t6);
            lemma_read_field::<Int256>(m.new_nonce, t7);
        }
    }

    #[verifier::spinoff_prover]
    proof fn lemma_to_bytes_aligned(&self) {
        lemma_expect_constructor(P_Q_INNER_DATA_CONSTRUCTOR, Seq::empty());
        self.pq.lemma_to_bytes_aligned();
        self.p.lemma_to_bytes_aligned();
        self.q.lemma_to_bytes_aligned();
        self.nonce.lemma_to_bytes_aligned();
        self.server_nonce.lemma_to_bytes_aligned();
        self.new_nonce.lemma_to_bytes_aligned();
        let m = self.model();
        let l0 = <u32 as TLObject>::spec_to_bytes(P_Q_INNER_DATA_CONSTRUCTOR).len();
        let l1 = <Box<[u8; 8]> as TLObject>::spec_to_bytes(m.pq).len();
        let l2 = <Box<[u8; 4]> as TLObject>::spec_to_bytes(m.p).len();
        let l3 = <Box<[u8; 4]> as TLObject>::spec_to_bytes(m.q).len();
        let l4 = <i128 as TLObject>::spec_to_bytes(m.nonce).len();
        let l5 = <i128 as TLObject>::spec_to_bytes(m.server_nonce).len();
        let l6 = <Int256 as TLObject>::spec_to_bytes(m.new_nonce).len();
        assert((l0 + l1 + l2 + l3 + l4 + l5 + l6) % 4 == 0) by (nonlinear_arith)
            requires
                l0 % 4 == 0,
                l1 % 4 == 0,
                l2 % 4 == 0,
                l3 % 4 == 0,
                l4 % 4 == 0,
                l5 % 4 == 0,
                l6 % 4 == 0,
        ;
        assert(Self::spec_to_bytes(m).len() == l0 + l1 + l2 + l3 + l4 + l5 + l6);
    }
}

/// The wire layout of `p_q_inner_data`: the constructor number as four
/// little-endian bytes, then, in the schema's order:
/// - `pq` as a TL byte string of 8 bytes;
/// - `p` as a TL byte string of 4 bytes;
/// - `q` as a TL byte string of 4 bytes;
/// - `nonce` as a 128-bit little-endian two's complement integer;
/// - `server_nonce` as a 128-bit little-endian two's complement integer;
/// - `new_nonce` as its 32 bytes, unchanged;
/// so the bytes that `to_bytes` writes carry each field at its place in
/// the schema.
pub proof fn lemma_p_q_inner_data_layout(m: PQInnerDataModel)
    ensures
        <PQInnerData as TLObject>::spec_to_bytes(m) == le_bytes(P_Q_INNER_DATA_CONSTRUCTOR as nat, 4)
            + bytes_to_bytes(m.pq)
            + bytes_to_bytes(m.p)
            + bytes_to_bytes(m.q)
            + signed_le_bytes(m.nonce as int, 16)
            + signed_le_bytes(m.server_nonce as int, 16)
            + m.new_nonce,
        m.pq.len() == 8 && m.p.len() == 4 && m.q.len() == 4 ==> {
            &&& <PQInnerData as TLObject>::spec_to_bytes(m).subrange(32, 48) == signed_le_bytes(
                m.nonce as int,
                16,
            )
            &&& <PQInnerData as TLObject>::spec_to_bytes(m).subrange(48, 64) == signed_le_bytes(
                m.server_nonce as int,
                16,
            )
        },
{
    if m.pq.len() == 8 && m.p.len() == 4 && m.q.len() == 4 {
        reveal_with_fuel(pow256, 4);
        lemma_le_bytes_len(P_Q_INNER_DATA_CONSTRUCTOR as nat, 4);
        lemma_le_bytes_len(to_unsigned(m.nonce as int, 16), 16);
        lemma_le_bytes_len(to_unsigned(m.server_nonce as int, 16), 16);
        assert(bytes_to_bytes(m.pq).len() == 12);
        assert(bytes_to_bytes(m.p).len() == 8);
        assert(bytes_to_bytes(m.q).len() == 8);
        let w = <PQInnerData as TLObject>::spec_to_bytes(m);
        assert(w.subrange(32, 48) =~= signed_le_bytes(m.nonce as int, 16));
        assert(w.subrange(48, 64) =~= signed_le_bytes(m.server_nonce as int, 16));
    }
}

/// Decoding `p_q_inner_data` laid out on the wire as the schema says, whatever follows
/// it: each field comes back from its own place, and exactly the message is
/// consumed.
pub proof fn lemma_p_q_inner_data_read_layout(pq: Seq<u8>, p: Seq<u8>, q: Seq<u8>, nonce: i128, server_nonce: i128, new_nonce: Seq<u8>, rest: Seq<u8>)
    requires
        pq.len() == 8,
        p.len() == 4,
        q.len() == 4,
        new_nonce.len() == 32,
    ensures
        <PQInnerData as TLObject>::spec_read(
            le_bytes(P_Q_INNER_DATA_CONSTRUCTOR as nat, 4)
            + bytes_to_bytes(pq)
            + bytes_to_bytes(p)
            + bytes_to_bytes(q)
            + signed_le_bytes(nonce as int, 16)
            + signed_le_bytes(server_nonce as int, 16)
            + new_nonce + rest,
        ) == Some((PQInnerDataModel { pq, p, q, nonce, server_nonce, new_nonce }, (le_bytes(P_Q_INNER_DATA_CONSTRUCTOR as nat, 4)
            + bytes_to_bytes(pq)
            + bytes_to_bytes(p)
            + bytes_to_bytes(q)
            + signed_le_bytes(nonce as int, 16)
            + signed_le_bytes(server_nonce as int, 16)
            + new_nonce).len())),
{
    reveal_with_fuel(pow256, 5);
    let m = PQInnerDataModel { pq, p, q, nonce, server_nonce, new_nonce };
    lemma_p_q_inner_data_layout(m);
    <PQInnerData as TLObject>::lemma_read_to_bytes(m, rest);
}

} // verus!
