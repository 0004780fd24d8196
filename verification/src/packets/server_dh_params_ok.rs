//! `server_DH_params_ok`: the server's Diffie-Hellman parameters, encrypted
//! with the temporary AES key.
use vstd::prelude::*;
use crate::reader::TLReader;
use crate::traits::tl_object::{TLObject, expect_constructor, read_constructor, read_or_rewind, lemma_read_field, lemma_expect_constructor};
use crate::traits::tl_object::{signed_le_bytes, bytes_to_bytes, to_unsigned};
use crate::le::{le_bytes, pow256, lemma_le_bytes_len};

verus! {

/// The constructor number of `ServerDHParamsOK`.
pub const SERVER_DH_PARAMS_OK_CONSTRUCTOR: u32 = 0xd0e8075c;

#[derive(Debug)]
pub struct ServerDHParamsOK {
    pub nonce: i128,
    pub server_nonce: i128,
    pub encrypted_answer: Box<[u8]>,
}

/// The value that a `ServerDHParamsOK` stands for.
pub struct ServerDHParamsOKModel {
    pub nonce: i128,
    pub server_nonce: i128,
    pub encrypted_answer: Seq<u8>,
}

impl TLObject for ServerDHParamsOK {
    type Model = ServerDHParamsOKModel;

    open spec fn model(&self) -> ServerDHParamsOKModel {
        ServerDHParamsOKModel {
            nonce: self.nonce.model(),
            server_nonce: self.server_nonce.model(),
            encrypted_answer: self.encrypted_answer.model(),
        }
    }

    open spec fn spec_to_bytes(m: ServerDHParamsOKModel) -> Seq<u8> {
        <u32 as TLObject>::spec_to_bytes(SERVER_DH_PARAMS_OK_CONSTRUCTOR)
            + <i128 as TLObject>::spec_to_bytes(m.nonce)
            + <i128 as TLObject>::spec_to_bytes(m.server_nonce)
            + <Box<[u8]> as TLObject>::spec_to_bytes(m.encrypted_answer)
    }

    open spec fn spec_read(data: Seq<u8>) -> Option<(ServerDHParamsOKModel, nat)> {
        match expect_constructor(data, SERVER_DH_PARAMS_OK_CONSTRUCTOR) {
            Some(n0) => {
                let d1 = data.skip(n0 as int);
                match <i128 as TLObject>::spec_read(d1) {
                    Some((nonce, n1)) => {
                        let d2 = d1.skip(n1 as int);
                        match <i128 as TLObject>::spec_read(d2) {
                            Some((server_nonce, n2)) => {
                                let d3 = d2.skip(n2 as int);
                                match <Box<[u8]> as TLObject>::spec_read(d3) {
                                    Some((encrypted_answer, n3)) => {
                                        Some((
                                            ServerDHParamsOKModel { nonce, server_nonce, encrypted_answer },
                                            n0 + n1 + n2 + n3,
                                        ))
                                    },
                                    None => None,
                                }
                            },
                            None => None,
                        }
                    },
                    None => None,
                }
            },
            None => None,
        }
    }

    open spec fn spec_decodable(m: ServerDHParamsOKModel) -> bool {
        &&& <i128 as TLObject>::spec_decodable(m.nonce)
        &&& <i128 as TLObject>::spec_decodable(m.server_nonce)
        &&& <Box<[u8]> as TLObject>::spec_decodable(m.encrypted_answer)
    }

    fn read_from(buffer: &mut TLReader) -> (r: Option<ServerDHParamsOK>) {
        let start = buffer.position();
        if !read_constructor(buffer, SERVER_DH_PARAMS_OK_CONSTRUCTOR) {
            return None;
        }
        let nonce = match read_or_rewind::<i128>(buffer, start) {
            Some(v) => v,
            None => {
                return None;
            },
        };
        let server_nonce = match read_or_rewind::<i128>(buffer, start) {
            Some(v) => v,
            None => {
                return None;
            },
        };
        let encrypted_answer = match read_or_rewind::<Box<[u8]>>(buffer, start) {
            Some(v) => v,
            None => {
                return None;
            },
        };
        Some(ServerDHParamsOK { nonce, server_nonce, encrypted_answer })
    }

    fn to_bytes(&self) -> (out: Vec<u8>) {
        let mut total: Vec<u8> = Vec::new();
        let mut part = SERVER_DH_PARAMS_OK_CONSTRUCTOR.to_bytes();
        total.append(&mut part);
        let mut part = self.nonce.to_bytes();
        total.append(&mut part);
        let mut part = self.server_nonce.to_bytes();
        total.append(&mut part);
        let mut part = self.encrypted_answer.to_bytes();
        total.append(&mut part);
        total
    }

    proof fn lemma_read_to_bytes(m: ServerDHParamsOKModel, rest: Seq<u8>) {
        if Self::spec_decodable(m) {
            let e0 = <u32 as TLObject>::spec_to_bytes(SERVER_DH_PARAMS_OK_CONSTRUCTOR);
            let e1 = <i128 as TLObject>::spec_to_bytes(m.nonce);
            let e2 = <i128 as TLObject>::spec_to_bytes(m.server_nonce);
            let e3 = <Box<[u8]> as TLObject>::spec_to_bytes(m.encrypted_answer);
            let t4 = rest;
            let t3 = e3 + t4;
            let t2 = e2 + t3;
            let t1 = e1 + t2;
            assert(Self::spec_to_bytes(m) + rest =~= e0 + t1);
            lemma_expect_constructor(SERVER_DH_PARAMS_OK_CONSTRUCTOR, t1);
            lemma_read_field::<i128>(m.nonce, t2);
            lemma_read_field::<i128>(m.server_nonce, t3);
            lemma_read_field::<Box<[u8]>>(m.encrypted_answer, t4);
        }
    }

    #[verifier::spinoff_prover]
    proof fn lemma_to_bytes_aligned(&self) {
        lemma_expect_constructor(SERVER_DH_PARAMS_OK_CONSTRUCTOR, Seq::empty());
        self.nonce.lemma_to_bytes_aligned();
        self.server_nonce.lemma_to_bytes_aligned();
        self.encrypted_answer.lemma_to_bytes_aligned();
        let m = self.model();
        let l0 = <u32 as TLObject>::spec_to_bytes(SERVER_DH_PARAMS_OK_CONSTRUCTOR).len();
        let l1 = <i128 as TLObject>::spec_to_bytes(m.nonce).len();
        let l2 = <i128 as TLObject>::spec_to_bytes(m.server_nonce).len();
        let l3 = <Box<[u8]> as TLObject>::spec_to_bytes(m.encrypted_answer).len();
        assert((l0 + l1 + l2 + l3) % 4 == 0) by (nonlinear_arith)
            requires
                l0 % 4 == 0,
                l1 % 4 == 0,
                l2 % 4 == 0,
                l3 % 4 == 0,
        ;
        assert(Self::spec_to_bytes(m).len() == l0 + l1 + l2 + l3);
    }
}

/// The wire layout of `server_DH_params_ok`: the constructor number as four
/// little-endian bytes, then, in the schema's order:
/// - `nonce` as a 128-bit little-endian two's complement integer;
/// - `server_nonce` as a 128-bit little-endian two's complement integer;
/// - `encrypted_answer` as a TL byte string;
/// so the bytes that `to_bytes` writes carry each field at its place in
/// the schema.
pub proof fn lemma_server_dh_params_ok_layout(m: ServerDHParamsOKModel)
    ensures
        <ServerDHParamsOK as TLObject>::spec_to_bytes(m) == le_bytes(SERVER_DH_PARAMS_OK_CONSTRUCTOR as nat, 4)
            + signed_le_bytes(m.nonce as int, 16)
            + signed_le_bytes(m.server_nonce as int, 16)
            + bytes_to_bytes(m.encrypted_answer),
        <ServerDHParamsOK as TLObject>::spec_to_bytes(m).subrange(4, 20) == signed_le_bytes(m.nonce as int, 16),
        <ServerDHParamsOK as TLObject>::spec_to_bytes(m).subrange(20, 36) == signed_le_bytes(m.server_nonce as int, 16),
{
    lemma_le_bytes_len(SERVER_DH_PARAMS_OK_CONSTRUCTOR as nat, 4);
    lemma_le_bytes_len(to_unsigned(m.nonce as int, 16), 16);
    lemma_le_bytes_len(to_unsigned(m.server_nonce as int, 16), 16);
    let w = <ServerDHParamsOK as TLObject>::spec_to_bytes(m);
    assert(w.subrange(4, 20) =~= signed_le_bytes(m.nonce as int, 16));
    assert(w.subrange(20, 36) =~= signed_le_bytes(m.server_nonce as int, 16));
}

/// Decoding `server_DH_params_ok` laid out on the wire as the schema says, whatever follows
/// it: each field comes back from its own place, and exactly the message is
/// consumed.
pub proof fn lemma_server_dh_params_ok_read_layout(nonce: i128, server_nonce: i128, encrypted_answer: Seq<u8>, rest: Seq<u8>)
    requires
        encrypted_answer.len() < 0x1000000,
    ensures
        <ServerDHParamsOK as TLObject>::spec_read(
            le_bytes(SERVER_DH_PARAMS_OK_CONSTRUCTOR as nat, 4)
            + signed_le_bytes(nonce as int, 16)
            + signed_le_bytes(server_nonce as int, 16)
            + bytes_to_bytes(encrypted_answer) + rest,
        ) == Some((ServerDHParamsOKModel { nonce, server_nonce, encrypted_answer }, (le_bytes(SERVER_DH_PARAMS_OK_CONSTRUCTOR as nat, 4)
            + signed_le_bytes(nonce as int, 16)
            + signed_le_bytes(server_nonce as int, 16)
            + bytes_to_bytes(encrypted_answer)).len())),
{
    reveal_with_fuel(pow256, 5);
    let m = ServerDHParamsOKModel { nonce, server_nonce, encrypted_answer };
    lemma_server_dh_params_ok_layout(m);
    <ServerDHParamsOK as TLObject>::lemma_read_to_bytes(m, rest);
}

} // verus!
