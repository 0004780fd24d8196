//! `set_client_DH_params`: the client's encrypted `client_DH_inner_data`.
use vstd::prelude::*;
use crate::reader::TLReader;
use crate::traits::tl_object::{TLObject, expect_constructor, read_constructor, read_or_rewind, lemma_read_field, lemma_expect_constructor};
use crate::traits::tl_object::{signed_le_bytes, bytes_to_bytes, to_unsigned};
use crate::le::{le_bytes, pow256, lemma_le_bytes_len};

verus! {

/// The constructor number of `SetClientDHParams`.
pub const SET_CLIENT_DH_PARAMS_CONSTRUCTOR: u32 = 0xf5045f1f;

#[derive(Debug)]
pub struct SetClientDHParams {
    pub nonce: i128,
    pub server_nonce: i128,
    pub encrypted_data: Box<[u8]>,
}

/// The value that a `SetClientDHParams` stands for.
pub struct SetClientDHParamsModel {
    pub nonce: i128,
    pub server_nonce: i128,
    pub encrypted_data: Seq<u8>,
}

impl TLObject for SetClientDHParams {
    type Model = SetClientDHParamsModel;

    open spec fn model(&self) -> SetClientDHParamsModel {
        SetClientDHParamsModel {
            nonce: self.nonce.model(),
            server_nonce: self.server_nonce.model(),
            encrypted_data: self.encrypted_data.model(),
        }
    }

    open spec fn spec_to_bytes(m: SetClientDHParamsModel) -> Seq<u8> {
        <u32 as TLObject>::spec_to_bytes(SET_CLIENT_DH_PARAMS_CONSTRUCTOR)
            + <i128 as TLObject>::spec_to_bytes(m.nonce)
            + <i128 as TLObject>::spec_to_bytes(m.server_nonce)
            + <Box<[u8]> as TLObject>::spec_to_bytes(m.encrypted_data)
    }

    open spec fn spec_read(data: Seq<u8>) -> Option<(SetClientDHParamsModel, nat)> {
        match expect_constructor(data, SET_CLIENT_DH_PARAMS_CONSTRUCTOR) {
            Some(n0) => {
                let d1 = data.skip(n0 as int);
                match <i128 as TLObject>::spec_read(d1) {
                    Some((nonce, n1)) => {
                        let d2 = d1.skip(n1 as int);
                        match <i128 as TLObject>::spec_read(d2) {
                            Some((server_nonce, n2)) => {
                                let d3 = d2.skip(n2 as int);
                                match <Box<[u8]> as TLObject>::spec_read(d3) {
                                    Some((encrypted_data, n3)) => {
                                        Some((
                                            SetClientDHParamsModel { nonce, server_nonce, encrypted_data },
                                            n0 + n1 + n2 + n3,
                                        ))
                                    },
                                    None => None,
                                }
                            },
                            None => None,
                        }
                    },
                    None => None,
                }
            },
            None => None,
        }
    }

    open spec fn spec_decodable(m: SetClientDHParamsModel) -> bool {
        &&& <i128 as TLObject>::spec_decodable(m.nonce)
        &&& <i128 as TLObject>::spec_decodable(m.server_nonce)
        &&& <Box<[u8]> as TLObject>::spec_decodable(m.encrypted_data)
    }

    fn read_from(buffer: &mut TLReader) -> (r: Option<SetClientDHParams>) {
        let start = buffer.position();
        if !read_constructor(buffer, SET_CLIENT_DH_PARAMS_CONSTRUCTOR) {
            return None;
        }
        let nonce = match read_or_rewind::<i128>(buffer, start) {
            Some(v) => v,
            None => {
                return None;
            },
        };
        let server_nonce = match read_or_rewind::<i128>(buffer, start) {
            Some(v) => v,
            None => {
                return None;
            },
        };
        let encrypted_data = match read_or_rewind::<Box<[u8]>>(buffer, start) {
            Some(v) => v,
            None => {
                return None;
            },
        };
        Some(SetClientDHParams { nonce, server_nonce, encrypted_data })
    }

    fn to_bytes(&self) -> (out: Vec<u8>) {
        let mut total: Vec<u8> = Vec::new();
        let mut part = SET_CLIENT_DH_PARAMS_CONSTRUCTOR.to_bytes();
        total.append(&mut part);
        let mut part = self.nonce.to_bytes();
        total.append(&mut part);
        let mut part = self.server_nonce.to_bytes();
        total.append(&mut part);
        let mut part = self.encrypted_data.to_bytes();
        total.append(&mut part);
        total
    }

    proof fn lemma_read_to_bytes(m: SetClientDHParamsModel, rest: Seq<u8>) {
        if Self::spec_decodable(m) {
            let e0 = <u32 as TLObject>::spec_to_bytes(SET_CLIENT_DH_PARAMS_CONSTRUCTOR);
            let e1 = <i128 as TLObject>::spec_to_bytes(m.nonce);
            let e2 = <i128 as TLObject>::spec_to_bytes(m.server_nonce);
            let e3 = <Box<[u8]> as TLObject>::spec_to_bytes(m.encrypted_data);
            let t4 = rest;
            let t3 = e3 + t4;
            let t2 = e2 + t3;
            let t1 = e1 + t2;
            assert(Self::spec_to_bytes(m) + rest =~= e0 + t1);
            lemma_expect_constructor(SET_CLIENT_DH_PARAMS_CONSTRUCTOR, t1);
            lemma_read_field::<i128>(m.nonce, t2);
            lemma_read_field::<i128>(m.server_nonce, t3);
            lemma_read_field::<Box<[u8]>>(m.encrypted_data, t4);
        }
    }

    #[verifier::spinoff_prover]
    proof fn lemma_to_bytes_aligned(&self) {
        lemma_expect_constructor(SET_CLIENT_DH_PARAMS_CONSTRUCTOR, Seq::empty());
        self.nonce.lemma_to_bytes_aligned();
        self.server_nonce.lemma_to_bytes_aligned();
        self.encrypted_data.lemma_to_bytes_aligned();
        let m = self.model();
        let l0 = <u32 as TLObject>::spec_to_bytes(SET_CLIENT_DH_PARAMS_CONSTRUCTOR).len();
        let l1 = <i128 as TLObject>::spec_to_bytes(m.nonce).len();
        let l2 = <i128 as TLObject>::spec_to_bytes(m.server_nonce).len();
        let l3 = <Box<[u8]> as TLObject>::spec_to_bytes(m.encrypted_data).len();
        assert((l0 + l1 + l2 + l3) % 4 == 0) by (nonlinear_arith)
            requires
                l0 % 4 == 0,
                l1 % 4 == 0,
                l2 % 4 == 0,
                l3 % 4 == 0,
        ;
        assert(Self::spec_to_bytes(m).len() == l0 + l1 + l2 + l3);
    }
}

/// The wire layout of `set_client_DH_params`: the constructor number as four
/// little-endian bytes, then, in the schema's order:
/// - `nonce` as a 128-bit little-endian two's complement integer;
/// - `server_nonce` as a 128-bit little-endian two's complement integer;
/// - `encrypted_data` as a TL byte string;
/// so the bytes that `to_bytes` writes carry each field at its place in
/// the schema.
pub proof fn lemma_set_client_dh_params_layout(m: SetClientDHParamsModel)
    ensures
        <SetClientDHParams as TLObject>::spec_to_bytes(m) == le_bytes(SET_CLIENT_DH_PARAMS_CONSTRUCTOR as nat, 4)
            + signed_le_bytes(m.nonce as int, 16)
            + signed_le_bytes(m.server_nonce as int, 16)
            + bytes_to_bytes(m.encrypted_data),
        <SetClientDHParams as TLObject>::spec_to_bytes(m).subrange(4, 20) == signed_le_bytes(m.nonce as int, 16),
        <SetClientDHParams as TLObject>::spec_to_bytes(m).subrange(20, 36) == signed_le_bytes(m.server_nonce as int, 16),
{
    lemma_le_bytes_len(SET_CLIENT_DH_PARAMS_CONSTRUCTOR as nat, 4);
    lemma_le_bytes_len(to_unsigned(m.nonce as int, 16), 16);
    lemma_le_bytes_len(to_unsigned(m.server_nonce as int, 16), 16);
    let w = <SetClientDHParams as TLObject>::spec_to_bytes(m);
    assert(w.subrange(4, 20) =~= signed_le_bytes(m.nonce as int, 16));
    assert(w.subrange(20, 36) =~= signed_le_bytes(m.server_nonce as int, 16));
}

/// Decoding `set_client_DH_params` laid out on the wire as the schema says, whatever follows
/// it: each field comes back from its own place, and exactly the message is
/// consumed.
pub proof fn lemma_set_client_dh_params_read_layout(nonce: i128, server_nonce: i128, encrypted_data: Seq<u8>, rest: Seq<u8>)
    requires
        encrypted_data.len() < 0x1000000,
    ensures
        <SetClientDHParams as TLObject>::spec_read(
            le_bytes(SET_CLIENT_DH_PARAMS_CONSTRUCTOR as nat, 4)
            + signed_le_bytes(nonce as int, 16)
            + signed_le_bytes(server_nonce as int, 16)
            + bytes_to_bytes(encrypted_data) + rest,
        ) == Some((SetClientDHParamsModel { nonce, server_nonce, encrypted_data }, (le_bytes(SET_CLIENT_DH_PARAMS_CONSTRUCTOR as nat, 4)
            + signed_le_bytes(nonce as int, 16)
            + signed_le_bytes(server_nonce as int, 16)
            + bytes_to_bytes(encrypted_data)).len())),
{
    reveal_with_fuel(pow256, 5);
    let m = SetClientDHParamsModel { nonce, server_nonce, encrypted_data };
    lemma_set_client_dh_params_layout(m);
    <SetClientDHParams as TLObject>::lemma_read_to_bytes(m, rest);
}

} // verus!
