//! `client_DH_inner_data`: the client's half of the exchange, `g^b`.
use vstd::prelude::*;
use crate::reader::TLReader;
use crate::traits::tl_object::{TLObject, expect_constructor, read_constructor, read_or_rewind, lemma_read_field, lemma_expect_constructor};
use crate::traits::tl_object::{signed_le_bytes, bytes_to_bytes, to_unsigned};
use crate::le::{le_bytes, pow256, lemma_le_bytes_len};

verus! {

/// The constructor number of `ClientDHInnerData`.
pub const CLIENT_DH_INNER_DATA_CONSTRUCTOR: u32 = 0x6643b654;

#[derive(Debug)]
pub struct ClientDHInnerData {
    pub nonce: i128,
    pub server_nonce: i128,
    pub retry_id: i64,
    pub g_b: Box<[u8; 256]>,
}

/// The value that a `ClientDHInnerData` stands for.
pub struct ClientDHInnerDataModel {
    pub nonce: i128,
    pub server_nonce: i128,
    pub retry_id: i64,
    pub g_b: Seq<u8>,
}

impl TLObject for ClientDHInnerData {
    type Model = ClientDHInnerDataModel;

    open spec fn model(&self) -> ClientDHInnerDataModel {
        ClientDHInnerDataModel {
            nonce: self.nonce.model(),
            server_nonce: self.server_nonce.model(),
            retry_id: self.retry_id.model(),
            g_b: self.g_b.model(),
        }
    }

    open spec fn spec_to_bytes(m: ClientDHInnerDataModel) -> Seq<u8> {
        <u32 as TLObject>::spec_to_bytes(CLIENT_DH_INNER_DATA_CONSTRUCTOR)
            + <i128 as TLObject>::spec_to_bytes(m.nonce)
            + <i128 as TLObject>::spec_to_bytes(m.server_nonce)
            + <i64 as TLObject>::spec_to_bytes(m.retry_id)
            + <Box<[u8; 256]> as TLObject>::spec_to_bytes(m.g_b)
    }

    open spec fn spec_read(data: Seq<u8>) -> Option<(ClientDHInnerDataModel, nat)> {
        match expect_constructor(data, CLIENT_DH_INNER_DATA_CONSTRUCTOR) {
            Some(n0) => {
                let d1 = data.skip(n0 as int);
                match <i128 as TLObject>::spec_read(d1) {
                    Some((nonce, n1)) => {
                        let d2 = d1.skip(n1 as int);
                        match <i128 as TLObject>::spec_read(d2) {
                            Some((server_nonce, n2)) => {
                                let d3 = d2.skip(n2 as int);
                                match <i64 as TLObject>::spec_read(d3) {
                                    Some((retry_id, n3)) => {
                                        let d4 = d3.skip(n3 as int);
                                        match <Box<[u8; 256]> as TLObject>::spec_read(d4) {
                                            Some((g_b, n4)) => {
                                                Some((
                                                    ClientDHInnerDataModel { nonce, server_nonce, retry_id, g_b },
                                                    n0 + n1 + n2 + n3 + n4,
                                                ))
                                            },
                                            None => None,
                                        }
                                    },
                                    None => None,
                                }
                            },
                            None => None,
                        }
                    },
                    None => None,
                }
            },
            None => None,
        }
    }

    open spec fn spec_decodable(m: ClientDHInnerDataModel) -> bool {
        &&& <i128 as TLObject>::spec_decodable(m.nonce)
        &&& <i128 as TLObject>::spec_decodable(m.server_nonce)
        &&& <i64 as TLObject>::spec_decodable(m.retry_id)
        &&& <Box<[u8; 256]> as TLObject>::spec_decodable(m.g_b)
    }

    fn read_from(buffer: &mut TLReader) -> (r: Option<ClientDHInnerData>) {
        let start = buffer.position();
        if !read_constructor(buffer, CLIENT_DH_INNER_DATA_CONSTRUCTOR) {
            return None;
        }
        let nonce = match read_or_rewind::<i128>(buffer, start) {
            Some(v) => v,
            None => {
                return None;
            },
        };
        let server_nonce = match read_or_rewind::<i128>(buffer, start) {
            Some(v) => v,
            None => {
                return None;
            },
        };
        let retry_id = match read_or_rewind::<i64>(buffer, start) {
            Some(v) => v,
            None => {
                return None;
            },
        };
        let g_b = match read_or_rewind::<Box<[u8; 256]>>(buffer, start) {
            Some(v) => v,
            None => {
                return None;
            },
        };
        Some(ClientDHInnerData { nonce, server_nonce, retry_id, g_b })
    }

    fn to_bytes(&self) -> (out: Vec<u8>) {
        let mut total: Vec<u8> = Vec::new();
        let mut part = CLIENT_DH_INNER_DATA_CONSTRUCTOR.to_bytes();
        total.append(&mut part);
        let mut part = self.nonce.to_bytes();
        total.append(&mut part);
        let mut part = self.server_nonce.to_bytes();
        total.append(&mut part);
        let mut part = self.retry_id.to_bytes();
        total.append(&mut part);
        let mut part = self.g_b.to_bytes();
        total.append(&mut part);
        total
    }

    proof fn lemma_read_to_bytes(m: ClientDHInnerDataModel, rest: Seq<u8>) {
        if Self::spec_decodable(m) {
            let e0 = <u32 as TLObject>::spec_to_bytes(CLIENT_DH_INNER_DATA_CONSTRUCTOR);
            let e1 = <i128 as TLObject>::spec_to_bytes(m.nonce);
            let e2 = <i128 as TLObject>::spec_to_bytes(m.server_nonce);
            let e3 = <i64 as TLObject>::spec_to_bytes(m.retry_id);
            let e4 = <Box<[u8; 256]> as TLObject>::spec_to_bytes(m.g_b);
            let t5 = rest;
            let t4 = e4 + t5;
            let t3 = e3 + t4;
            let t2 = e2 + t3;
            let t1 = e1 + t2;
            assert(Self::spec_to_bytes(m) + rest =~= e0 + t1);
            lemma_expect_constructor(CLIENT_DH_INNER_DATA_CONSTRUCTOR, t1);
            lemma_read_field::<i128>(m.nonce, t2);
            lemma_read_field::<i128>(m.server_nonce, t3);
            lemma_read_field::<i64>(m.retry_id, t4);
            lemma_read_field::<Box<[u8; 256]>>(m.g_b, t5);
        }
    }

    #[verifier::spinoff_prover]
    proof fn lemma_to_bytes_aligned(&self) {
        lemma_expect_constructor(CLIENT_DH_INNER_DATA_CONSTRUCTOR, Seq::empty());
        self.nonce.lemma_to_bytes_aligned();
        self.server_nonce.lemma_to_bytes_aligned();
        self.retry_id.lemma_to_bytes_aligned();
        self.g_b.lemma_to_bytes_aligned();
        let m = self.model();
        let l0 = <u32 as TLObject>::spec_to_bytes(CLIENT_DH_INNER_DATA_CONSTRUCTOR).len();
        let l1 = <i128 as TLObject>::spec_to_bytes(m.nonce).len();
        let l2 = <i128 as TLObject>::spec_to_bytes(m.server_nonce).len();
        let l3 = <i64 as TLObject>::spec_to_bytes(m.retry_id).len();
        let l4 = <Box<[u8; 256]> as TLObject>::spec_to_bytes(m.g_b).len();
        assert((l0 + l1 + l2 + l3 + l4) % 4 == 0) by (nonlinear_arith)
            requires
                l0 % 4 == 0,
                l1 % 4 == 0,
                l2 % 4 == 0,
                l3 % 4 == 0,
                l4 % 4 == 0,
        ;
        assert(Self::spec_to_bytes(m).len() == l0 + l1 + l2 + l3 + l4);
    }
}

/// The wire layout of `client_DH_inner_data`: the constructor number as four
/// little-endian bytes, then, in the schema's order:
/// - `nonce` as a 128-bit little-endian two's complement integer;
/// - `server_nonce` as a 128-bit little-endian two's complement integer;
/// - `retry_id` as a 64-bit little-endian two's complement integer;
/// - `g_b` as a TL byte string of 256 bytes;
/// so the bytes that `to_bytes` writes carry each field at its place in
/// the schema.
pub proof fn lemma_client_dh_inner_data_layout(m: ClientDHInnerDataModel)
    ensures
        <ClientDHInnerData as TLObject>::spec_to_bytes(m) == le_bytes(CLIENT_DH_INNER_DATA_CONSTRUCTOR as nat, 4)
            + signed_le_bytes(m.nonce as int, 16)
            + signed_le_bytes(m.server_nonce as int, 16)
            + signed_le_bytes(m.retry_id as int, 8)
            + bytes_to_bytes(m.g_b),
        <ClientDHInnerData as TLObject>::spec_to_bytes(m).subrange(4, 20) == signed_le_bytes(m.nonce as int, 16),
        <ClientDHInnerData as TLObject>::spec_to_bytes(m).subrange(20, 36) == signed_le_bytes(m.server_nonce as int, 16),
{
    lemma_le_bytes_len(CLIENT_DH_INNER_DATA_CONSTRUCTOR as nat, 4);
    lemma_le_bytes_len(to_unsigned(m.nonce as int, 16), 16);
    lemma_le_bytes_len(to_unsigned(m.server_nonce as int, 16), 16);
    let w = <ClientDHInnerData as TLObject>::spec_to_bytes(m);
    assert(w.subrange(4, 20) =~= signed_le_bytes(m.nonce as int, 16));
    assert(w.subrange(20, 36) =~= signed_le_bytes(m.server_nonce as int, 16));
}

/// Decoding `client_DH_inner_data` laid out on the wire as the schema says, whatever follows
/// it: each field comes back from its own place, and exactly the message is
/// consumed.
pub proof fn lemma_client_dh_inner_data_read_layout(nonce: i128, server_nonce: i128, retry_id: i64, g_b: Seq<u8>, rest: Seq<u8>)
    requires
        g_b.len() == 256,
    ensures
        <ClientDHInnerData as TLObject>::spec_read(
            le_bytes(CLIENT_DH_INNER_DATA_CONSTRUCTOR as nat, 4)
            + signed_le_bytes(nonce as int, 16)
            + signed_le_bytes(server_nonce as int, 16)
            + signed_le_bytes(retry_id as int, 8)
            + bytes_to_bytes(g_b) + rest,
        ) == Some((ClientDHInnerDataModel { nonce, server_nonce, retry_id, g_b }, (le_bytes(CLIENT_DH_INNER_DATA_CONSTRUCTOR as nat, 4)
            + signed_le_bytes(nonce as int, 16)
            + signed_le_bytes(server_nonce as int, 16)
            + signed_le_bytes(retry_id as int, 8)
            + bytes_to_bytes(g_b)).len())),
{
    reveal_with_fuel(pow256, 5);
    let m = ClientDHInnerDataModel { nonce, server_nonce, retry_id, g_b };
    lemma_client_dh_inner_data_layout(m);
    <ClientDHInnerData as TLObject>::lemma_read_to_bytes(m, rest);
}

} // verus!
