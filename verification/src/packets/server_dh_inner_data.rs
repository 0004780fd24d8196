//! `server_DH_inner_data`: the decrypted Diffie-Hellman parameters: the
//! generator `g`, the prime, `g^a` and the server's clock.
use vstd::prelude::*;
use crate::reader::TLReader;
use crate::traits::tl_object::{TLObject, expect_constructor, read_constructor, read_or_rewind, lemma_read_field, lemma_expect_constructor};
use crate::traits::tl_object::{signed_le_bytes, bytes_to_bytes, to_unsigned};
use crate::le::{le_bytes, pow256, lemma_le_bytes_len};

verus! {

/// The constructor number of `ServerDHInnerData`.
pub const SERVER_DH_INNER_DATA_CONSTRUCTOR: u32 = 0xb5890dba;

#[derive(Debug)]
pub struct ServerDHInnerData {
    pub nonce: i128,
    pub server_nonce: i128,
    pub g: i32,
    pub dh_prime: Box<[u8]>,
    pub g_a: Box<[u8]>,
    pub server_time: i32,
}

/// The value that a `ServerDHInnerData` stands for.
pub struct ServerDHInnerDataModel {
    pub nonce: i128,
    pub server_nonce: i128,
    pub g: i32,
    pub dh_prime: Seq<u8>,
    pub g_a: Seq<u8>,
    pub server_time: i32,
}

impl TLObject for ServerDHInnerData {
    type Model = ServerDHInnerDataModel;

    open spec fn model(&self) -> ServerDHInnerDataModel {
        ServerDHInnerDataModel {
            nonce: self.nonce.model(),
            server_nonce: self.server_nonce.model(),
            g: self.g.model(),
            dh_prime: self.dh_prime.model(),
            g_a: self.g_a.model(),
            server_time: self.server_time.model(),
        }
    }

    open spec fn spec_to_bytes(m: ServerDHInnerDataModel) -> Seq<u8> {
        <u32 as TLObject>::spec_to_bytes(SERVER_DH_INNER_DATA_CONSTRUCTOR)
            + <i128 as TLObject>::spec_to_bytes(m.nonce)
            + <i128 as TLObject>::spec_to_bytes(m.server_nonce)
            + <i32 as TLObject>::spec_to_bytes(m.g)
            + <Box<[u8]> as TLObject>::spec_to_bytes(m.dh_prime)
            + <Box<[u8]> as TLObject>::spec_to_bytes(m.g_a)
            + <i32 as TLObject>::spec_to_bytes(m.server_time)
    }

    open spec fn spec_read(data: Seq<u8>) -> Option<(ServerDHInnerDataModel, nat)> {
        match expect_constructor(data, SERVER_DH_INNER_DATA_CONSTRUCTOR) {
            Some(n0) => {
                let d1 = data.skip(n0 as int);
                match <i128 as TLObject>::spec_read(d1) {
                    Some((nonce, n1)) => {
                        let d2 = d1.skip(n1 as int);
                        match <i128 as TLObject>::spec_read(d2) {
                            Some((server_nonce, n2)) => {
                                let d3 = d2.skip(n2 as int);
                                match <i32 as TLObject>::spec_read(d3) {
                                    Some((g, n3)) => {
                                        let d4 = d3.skip(n3 as int);
                                        match <Box<[u8]> as TLObject>::spec_read(d4) {
                                            Some((dh_prime, n4)) => {
                                                let d5 = d4.skip(n4 as int);
                                                match <Box<[u8]> as TLObject>::spec_read(d5) {
                                                    Some((g_a, n5)) => {
                                                        let d6 = d5.skip(n5 as int);
                                                        match <i32 as TLObject>::spec_read(d6) {
                                                            Some((server_time, n6)) => {
                                                                Some((
                                                                    ServerDHInnerDataModel { nonce, server_nonce, g, dh_prime, g_a, server_time },
                                                                    n0 + n1 + n2 + n3 + n4 + n5 + n6,
                                                                ))
                                                            },
                                                            None => None,
                                                        }
                                                    },
                                                    None => None,
                                                }
                                            },
                                            None => None,
                                        }
                                    },
                                    None => None,
                                }
                            },
                            None => None,
                        }
                    },
                    None => None,
                }
            },
            None => None,
        }
    }

    open spec fn spec_decodable(m: ServerDHInnerDataModel) -> bool {
        &&& <i128 as TLObject>::spec_decodable(m.nonce)
        &&& <i128 as TLObject>::spec_decodable(m.server_nonce)
        &&& <i32 as TLObject>::spec_decodable(m.g)
        &&& <Box<[u8]> as TLObject>::spec_decodable(m.dh_prime)
        &&& <Box<[u8]> as TLObject>::spec_decodable(m.g_a)
        &&& <i32 as TLObject>::spec_decodable(m.server_time)
    }

    fn read_from(buffer: &mut TLReader) -> (r: Option<ServerDHInnerData>) {
        let start = buffer.position();
        if !read_constructor(buffer, SERVER_DH_INNER_DATA_CONSTRUCTOR) {
            return None;
        }
        let nonce = match read_or_rewind::<i128>(buffer, start) {
            Some(v) => v,
            None => {
                return None;
            },
        };
        let server_nonce = match read_or_rewind::<i128>(buffer, start) {
            Some(v) => v,
            None => {
                return None;
            },
        };
        let g = match read_or_rewind::<i32>(buffer, start) {
            Some(v) => v,
            None => {
                return None;
            },
        };
        let dh_prime = match read_or_rewind::<Box<[u8]>>(buffer, start) {
            Some(v) => v,
            None => {
                return None;
            },
        };
        let g_a = match read_or_rewind::<Box<[u8]>>(buffer, start) {
            Some(v) => v,
            None => {
                return None;
            },
        };
        let server_time = match read_or_rewind::<i32>(buffer, start) {
            Some(v) => v,
            None => {
                return None;
            },
        };
        Some(ServerDHInnerData { nonce, server_nonce, g, dh_prime, g_a, server_time })
    }

    fn to_bytes(&self) -> (out: Vec<u8>) {
        let mut total: Vec<u8> = Vec::new();
        let mut part = SERVER_DH_INNER_DATA_CONSTRUCTOR.to_bytes();
        total.append(&mut part);
        let mut part = self.nonce.to_bytes();
        total.append(&mut part);
        let mut part = self.server_nonce.to_bytes();
        total.append(&mut part);
        let mut part = self.g.to_bytes();
        total.append(&mut part);
        let mut part = self.dh_prime.to_bytes();
        total.append(&mut part);
        let mut part = self.g_a.to_bytes();
        total.append(&mut part);
        let mut part = self.server_time.to_bytes();
        total.append(&mut part);
        total
    }

    proof fn lemma_read_to_bytes(m: ServerDHInnerDataModel, rest: Seq<u8>) {
        if Self::spec_decodable(m) {
            let e0 = <u32 as TLObject>::spec_to_bytes(SERVER_DH_INNER_DATA_CONSTRUCTOR);
            let e1 = <i128 as TLObject>::spec_to_bytes(m.nonce);
            let e2 = <i128 as TLObject>::spec_to_bytes(m.server_nonce);
            let e3 = <i32 as TLObject>::spec_to_bytes(m.g);
            let e4 = <Box<[u8]> as TLObject>::spec_to_bytes(m.dh_prime);
            let e5 = <Box<[u8]> as TLObject>::spec_to_bytes(m.g_a);
            let e6 = <i32 as TLObject>::spec_to_bytes(m.server_time);
            let t7 = rest;
            let t6 = e6 + t7;
            let t5 = e5 + t6;
            let t4 = e4 + t5;
            let t3 = e3 + t4;
            let t2 = e2 + t3;
            let t1 = e1 + t2;
            assert(Self::spec_to_bytes(m) + rest =~= e0 + t1);
            lemma_expect_constructor(SERVER_DH_INNER_DATA_CONSTRUCTOR, t1);
            lemma_read_field::<i128>(m.nonce, t2);
            lemma_read_field::<i128>(m.server_nonce, t3);
            lemma_read_field::<i32>(m.g, t4);
            lemma_read_field::<Box<[u8]>>(m.dh_prime, t5);
            lemma_read_field::<Box<[u8]>>(m.g_a, t6);
            lemma_read_field::<i32>(m.server_time, t7);
        }
    }

    #[verifier::spinoff_prover]
    proof fn lemma_to_bytes_aligned(&self) {
        lemma_expect_constructor(SERVER_DH_INNER_DATA_CONSTRUCTOR, Seq::empty());
        self.nonce.lemma_to_bytes_aligned();
        self.server_nonce.lemma_to_bytes_aligned();
        self.g.lemma_to_bytes_aligned();
        self.dh_prime.lemma_to_bytes_aligned();
        self.g_a.lemma_to_bytes_aligned();
        self.server_time.lemma_to_bytes_aligned();
        let m = self.model();
        let l0 = <u32 as TLObject>::spec_to_bytes(SERVER_DH_INNER_DATA_CONSTRUCTOR).len();
        let l1 = <i128 as TLObject>::spec_to_bytes(m.nonce).len();
        let l2 = <i128 as TLObject>::spec_to_bytes(m.server_nonce).len();
        let l3 = <i32 as TLObject>::spec_to_bytes(m.g).len();
        let l4 = <Box<[u8]> as TLObject>::spec_to_bytes(m.dh_prime).len();
        let l5 = <Box<[u8]> as TLObject>::spec_to_bytes(m.g_a).len();
        let l6 = <i32 as TLObject>::spec_to_bytes(m.server_time).len();
        assert((l0 + l1 + l2 + l3 + l4 + l5 + l6) % 4 == 0) by (nonlinear_arith)
            requires
                l0 % 4 == 0,
                l1 % 4 == 0,
                l2 % 4 == 0,
                l3 % 4 == 0,
                l4 % 4 == 0,
                l5 % 4 == 0,
                l6 % 4 == 0,
        ;
        assert(Self::spec_to_bytes(m).len() == l0 + l1 + l2 + l3 + l4 + l5 + l6);
    }
}

/// The wire layout of `server_DH_inner_data`: the constructor number as four
/// little-endian bytes, then, in the schema's order:
/// - `nonce` as a 128-bit little-endian two's complement integer;
/// - `server_nonce` as a 128-bit little-endian two's complement integer;
/// - `g` as a 32-bit little-endian two's complement integer;
/// - `dh_prime` as a TL byte string;
/// - `g_a` as a TL byte string;
/// - `server_time` as a 32-bit little-endian two's complement integer;
/// so the bytes that `to_bytes` writes carry each field at its place in
/// the schema.
pub proof fn lemma_server_dh_inner_data_layout(m: ServerDHInnerDataModel)
    ensures
        <ServerDHInnerData as TLObject>::spec_to_bytes(m) == le_bytes(SERVER_DH_INNER_DATA_CONSTRUCTOR as nat, 4)
            + signed_le_bytes(m.nonce as int, 16)
            + signed_le_bytes(m.server_nonce as int, 16)
            + signed_le_bytes(m.g as int, 4)
            + bytes_to_bytes(m.dh_prime)
            + bytes_to_bytes(m.g_a)
            + signed_le_bytes(m.server_time as int, 4),
        <ServerDHInnerData as TLObject>::spec_to_bytes(m).subrange(4, 20) == signed_le_bytes(m.nonce as int, 16),
        <ServerDHInnerData as TLObject>::spec_to_bytes(m).subrange(20, 36) == signed_le_bytes(m.server_nonce as int, 16),
{
    lemma_le_bytes_len(SERVER_DH_INNER_DATA_CONSTRUCTOR as nat, 4);
    lemma_le_bytes_len(to_unsigned(m.nonce as int, 16), 16);
    lemma_le_bytes_len(to_unsigned(m.server_nonce as int, 16), 16);
    let w = <ServerDHInnerData as TLObject>::spec_to_bytes(m);
    assert(w.subrange(4, 20) =~= signed_le_bytes(m.nonce as int, 16));
    assert(w.subrange(20, 36) =~= signed_le_bytes(m.server_nonce as int, 16));
}

/// Decoding `server_DH_inner_data` laid out on the wire as the schema says, whatever follows
/// it: each field comes back from its own place, and exactly the message is
/// consumed.
pub proof fn lemma_server_dh_inner_data_read_layout(nonce: i128, server_nonce: i128, g: i32, dh_prime: Seq<u8>, g_a: Seq<u8>, server_time: i32, rest: Seq<u8>)
    requires
        dh_prime.len() < 0x1000000,
        g_a.len() < 0x1000000,
    ensures
        <ServerDHInnerData as TLObject>::spec_read(
            le_bytes(SERVER_DH_INNER_DATA_CONSTRUCTOR as nat, 4)
            + signed_le_bytes(nonce as int, 16)
            + signed_le_bytes(server_nonce as int, 16)
            + signed_le_bytes(g as int, 4)
            + bytes_to_bytes(dh_prime)
            + bytes_to_bytes(g_a)
            + signed_le_bytes(server_time as int, 4) + rest,
        ) == Some((ServerDHInnerDataModel { nonce, server_nonce, g, dh_prime, g_a, server_time }, (le_bytes(SERVER_DH_INNER_DATA_CONSTRUCTOR as nat, 4)
            + signed_le_bytes(nonce as int, 16)
            + signed_le_bytes(server_nonce as int, 16)
            + signed_le_bytes(g as int, 4)
            + bytes_to_bytes(dh_prime)
            + bytes_to_bytes(g_a)
            + signed_le_bytes(server_time as int, 4)).len())),
{
    reveal_with_fuel(pow256, 5);
    let m = ServerDHInnerDataModel { nonce, server_nonce, g, dh_prime, g_a, server_time };
    lemma_server_dh_inner_data_layout(m);
    <ServerDHInnerData as TLObject>::lemma_read_to_bytes(m, rest);
}

} // verus!
