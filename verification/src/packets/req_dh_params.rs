//! `req_DH_params`: the client's request for the Diffie-Hellman parameters,
//! carrying the RSA-encrypted `p_q_inner_data`.
use vstd::prelude::*;
use crate::reader::TLReader;
use crate::traits::tl_object::{TLObject, lemma_expect_constructor};
use crate::traits::tl_object::{signed_le_bytes, bytes_to_bytes, to_unsigned};
use crate::le::{le_bytes, lemma_le_bytes_len};

verus! {

/// The constructor number of `ReqDHParams`.
pub const REQ_DH_PARAMS_CONSTRUCTOR: u32 = 0xd712e4be;

#[derive(Debug)]
pub struct ReqDHParams {
    pub nonce: i128,
    pub server_nonce: i128,
    pub p: Box<[u8; 4]>,
    pub q: Box<[u8; 4]>,
    pub public_key_fingerprint: i64,
    pub encrypted_data: Box<[u8; 256]>,
}

/// The value that a `ReqDHParams` stands for.
pub struct ReqDHParamsModel {
    pub nonce: i128,
    pub server_nonce: i128,
    pub p: Seq<u8>,
    pub q: Seq<u8>,
    pub public_key_fingerprint: i64,
    pub encrypted_data: Seq<u8>,
}

impl TLObject for ReqDHParams {
    type Model = ReqDHParamsModel;

    open spec fn model(&self) -> ReqDHParamsModel {
        ReqDHParamsModel {
            nonce: self.nonce.model(),
            server_nonce: self.server_nonce.model(),
            p: self.p.model(),
            q: self.q.model(),
            public_key_fingerprint: self.public_key_fingerprint.model(),
            encrypted_data: self.encrypted_data.model(),
        }
    }

    open spec fn spec_to_bytes(m: ReqDHParamsModel) -> Seq<u8> {
        <u32 as TLObject>::spec_to_bytes(REQ_DH_PARAMS_CONSTRUCTOR)
            + <i128 as TLObject>::spec_to_bytes(m.nonce)
            + <i128 as TLObject>::spec_to_bytes(m.server_nonce)
            + <Box<[u8; 4]> as TLObject>::spec_to_bytes(m.p)
            + <Box<[u8; 4]> as TLObject>::spec_to_bytes(m.q)
            + <i64 as TLObject>::spec_to_bytes(m.public_key_fingerprint)
            + <Box<[u8; 256]> as TLObject>::spec_to_bytes(m.encrypted_data)
    }

    /// Decoding of this request is not implemented: no bytes decode to one.
    open spec fn spec_read(data: Seq<u8>) -> Option<(ReqDHParamsModel, nat)> {
        None
    }

    /// As no bytes decode to a request, no request decodes back.
    open spec fn spec_decodable(m: ReqDHParamsModel) -> bool {
        false
    }

    fn read_from(buffer: &mut TLReader) -> (r: Option<ReqDHParams>) {
        None
    }

    fn to_bytes(&self) -> (out: Vec<u8>) {
        let mut total: Vec<u8> = Vec::new();
        let mut part = REQ_DH_PARAMS_CONSTRUCTOR.to_bytes();
        total.append(&mut part);
        let mut part = self.nonce.to_bytes();
        total.append(&mut part);
        let mut part = self.server_nonce.to_bytes();
        total.append(&mut part);
        let mut part = self.p.to_bytes();
        total.append(&mut part);
        let mut part = self.q.to_bytes();
        total.append(&mut part);
        let mut part = self.public_key_fingerprint.to_bytes();
        total.append(&mut part);
        let mut part = self.encrypted_data.to_bytes();
        total.append(&mut part);
        total
    }

    proof fn lemma_read_to_bytes(m: ReqDHParamsModel, rest: Seq<u8>) {
    }

    #[verifier::spinoff_prover]
    proof fn lemma_to_bytes_aligned(&self) {
        lemma_expect_constructor(REQ_DH_PARAMS_CONSTRUCTOR, Seq::empty());
        self.nonce.lemma_to_bytes_aligned();
        self.server_nonce.lemma_to_bytes_aligned();
        self.p.lemma_to_bytes_aligned();
        self.q.lemma_to_bytes_aligned();
        self.public_key_fingerprint.lemma_to_bytes_aligned();
        self.encrypted_data.lemma_to_bytes_aligned();
        let m = self.model();
        let l0 = <u32 as TLObject>::spec_to_bytes(REQ_DH_PARAMS_CONSTRUCTOR).len();
        let l1 = <i128 as TLObject>::spec_to_bytes(m.nonce).len();
        let l2 = <i128 as TLObject>::spec_to_bytes(m.server_nonce).len();
        let l3 = <Box<[u8; 4]> as TLObject>::spec_to_bytes(m.p).len();
        let l4 = <Box<[u8; 4]> as TLObject>::spec_to_bytes(m.q).len();
        let l5 = <i64 as TLObject>::spec_to_bytes(m.public_key_fingerprint).len();
        let l6 = <Box<[u8; 256]> as TLObject>::spec_to_bytes(m.encrypted_data).len();
        assert((l0 + l1 + l2 + l3 + l4 + l5 + l6) % 4 == 0) by (nonlinear_arith)
            requires
                l0 % 4 == 0,
                l1 % 4 == 0,
                l2 % 4 == 0,
                l3 % 4 == 0,
                l4 % 4 == 0,
                l5 % 4 == 0,
                l6 % 4 == 0,
        ;
        assert(Self::spec_to_bytes(m).len() == l0 + l1 + l2 + l3 + l4 + l5 + l6);
    }
}

/// The wire layout of `req_DH_params`: the constructor number as four
/// little-endian bytes, then, in the schema's order:
/// - `nonce` as a 128-bit little-endian two's complement integer;
/// - `server_nonce` as a 128-bit little-endian two's complement integer;
/// - `p` as a TL byte string of 4 bytes;
/// - `q` as a TL byte string of 4 bytes;
/// - `public_key_fingerprint` as a 64-bit little-endian two's complement integer;
/// - `encrypted_data` as a TL byte string of 256 bytes;
/// so the bytes that `to_bytes` writes carry each field at its place in
/// the schema.
pub proof fn lemma_req_dh_params_layout(m: ReqDHParamsModel)
    ensures
        <ReqDHParams as TLObject>::spec_to_bytes(m) == le_bytes(REQ_DH_PARAMS_CONSTRUCTOR as nat, 4)
            + signed_le_bytes(m.nonce as int, 16)
            + signed_le_bytes(m.server_nonce as int, 16)
            + bytes_to_bytes(m.p)
            + bytes_to_bytes(m.q)
            + signed_le_bytes(m.public_key_fingerprint as int, 8)
            + bytes_to_bytes(m.encrypted_data),
        <ReqDHParams as TLObject>::spec_to_bytes(m).subrange(4, 20) == signed_le_bytes(m.nonce as int, 16),
        <ReqDHParams as TLObject>::spec_to_bytes(m).subrange(20, 36) == signed_le_bytes(m.server_nonce as int, 16),
{
    lemma_le_bytes_len(REQ_DH_PARAMS_CONSTRUCTOR as nat, 4);
    lemma_le_bytes_len(to_unsigned(m.nonce as int, 16), 16);
    lemma_le_bytes_len(to_unsigned(m.server_nonce as int, 16), 16);
    let w = <ReqDHParams as TLObject>::spec_to_bytes(m);
    assert(w.subrange(4, 20) =~= signed_le_bytes(m.nonce as int, 16));
    assert(w.subrange(20, 36) =~= signed_le_bytes(m.server_nonce as int, 16));
}

} // verus!
