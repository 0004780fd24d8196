//! `dh_gen_ok`: the server's confirmation that the authorization key is set.
use vstd::prelude::*;
use crate::reader::TLReader;
use crate::traits::tl_object::{TLObject, expect_constructor, read_constructor, read_or_rewind, lemma_read_field, lemma_expect_constructor};
use crate::traits::tl_object::{signed_le_bytes, to_unsigned};
use crate::le::{le_bytes, pow256, lemma_le_bytes_len};

verus! {

/// The constructor number of `DHGenOk`.
pub const DH_GEN_OK_CONSTRUCTOR: u32 = 0x3bcbf734;

#[derive(Debug)]
pub struct DHGenOk {
    pub nonce: i128,
    pub server_nonce: i128,
    pub new_nonce_hash1: i128,
}

/// The value that a `DHGenOk` stands for.
pub struct DHGenOkModel {
    pub nonce: i128,
    pub server_nonce: i128,
    pub new_nonce_hash1: i128,
}

impl TLObject for DHGenOk {
    type Model = DHGenOkModel;

    open spec fn model(&self) -> DHGenOkModel {
        DHGenOkModel {
            nonce: self.nonce.model(),
            server_nonce: self.server_nonce.model(),
            new_nonce_hash1: self.new_nonce_hash1.model(),
        }
    }

    open spec fn spec_to_bytes(m: DHGenOkModel) -> Seq<u8> {
        <u32 as TLObject>::spec_to_bytes(DH_GEN_OK_CONSTRUCTOR)
            + <i128 as TLObject>::spec_to_bytes(m.nonce)
            + <i128 as TLObject>::spec_to_bytes(m.server_nonce)
            + <i128 as TLObject>::spec_to_bytes(m.new_nonce_hash1)
    }

    open spec fn spec_read(data: Seq<u8>) -> Option<(DHGenOkModel, nat)> {
        match expect_constructor(data, DH_GEN_OK_CONSTRUCTOR) {
            Some(n0) => {
                let d1 = data.skip(n0 as int);
                match <i128 as TLObject>::spec_read(d1) {
                    Some((nonce, n1)) => {
                        let d2 = d1.skip(n1 as int);
                        match <i128 as TLObject>::spec_read(d2) {
                            Some((server_nonce, n2)) => {
                                let d3 = d2.skip(n2 as int);
                                match <i128 as TLObject>::spec_read(d3) {
                                    Some((new_nonce_hash1, n3)) => {
                                        Some((
                                            DHGenOkModel { nonce, server_nonce, new_nonce_hash1 },
                                            n0 + n1 + n2 + n3,
                                        ))
                                    },
                                    None => None,
                                }
                            },
                            None => None,
                        }
                    },
                    None => None,
                }
            },
            None => None,
        }
    }

    open spec fn spec_decodable(m: DHGenOkModel) -> bool {
        &&& <i128 as TLObject>::spec_decodable(m.nonce)
        &&& <i128 as TLObject>::spec_decodable(m.server_nonce)
        &&& <i128 as TLObject>::spec_decodable(m.new_nonce_hash1)
    }

    fn read_from(buffer: &mut TLReader) -> (r: Option<DHGenOk>) {
        let start = buffer.position();
        if !read_constructor(buffer, DH_GEN_OK_CONSTRUCTOR) {
            return None;
        }
        let nonce = match read_or_rewind::<i128>(buffer, start) {
            Some(v) => v,
            None => {
                return None;
            },
        };
        let server_nonce = match read_or_rewind::<i128>(buffer, start) {
            Some(v) => v,
            None => {
                return None;
            },
        };
        let new_nonce_hash1 = match read_or_rewind::<i128>(buffer, start) {
            Some(v) => v,
            None => {
                return None;
            },
        };
        Some(DHGenOk { nonce, server_nonce, new_nonce_hash1 })
    }

    fn to_bytes(&self) -> (out: Vec<u8>) {
        let mut total: Vec<u8> = Vec::new();
        let mut part = DH_GEN_OK_CONSTRUCTOR.to_bytes();
        total.append(&mut part);
        let mut part = self.nonce.to_bytes();
        total.append(&mut part);
        let mut part = self.server_nonce.to_bytes();
        total.append(&mut part);
        let mut part = self.new_nonce_hash1.to_bytes();
        total.append(&mut part);
        total
    }

    proof fn lemma_read_to_bytes(m: DHGenOkModel, rest: Seq<u8>) {
        if Self::spec_decodable(m) {
            let e0 = <u32 as TLObject>::spec_to_bytes(DH_GEN_OK_CONSTRUCTOR);
            let e1 = <i128 as TLObject>::spec_to_bytes(m.nonce);
            let e2 = <i128 as TLObject>::spec_to_bytes(m.server_nonce);
            let e3 = <i128 as TLObject>::spec_to_bytes(m.new_nonce_hash1);
            let t4 = rest;
            let t3 = e3 + t4;
            let t2 = e2 + t3;
            let t1 = e1 + t2;
            assert(Self::spec_to_bytes(m) + rest =~= e0 + t1);
            lemma_expect_constructor(DH_GEN_OK_CONSTRUCTOR, t1);
            lemma_read_field::<i128>(m.nonce, t2);
            lemma_read_field::<i128>(m.server_nonce, t3);
            lemma_read_field::<i128>(m.new_nonce_hash1, t4);
        }
    }

    #[verifier::spinoff_prover]
    proof fn lemma_to_bytes_aligned(&self) {
        lemma_expect_constructor(DH_GEN_OK_CONSTRUCTOR, Seq::empty());
        self.nonce.lemma_to_bytes_aligned();
        self.server_nonce.lemma_to_bytes_aligned();
        self.new_nonce_hash1.lemma_to_bytes_aligned();
        let m = self.model();
        let l0 = <u32 as TLObject>::spec_to_bytes(DH_GEN_OK_CONSTRUCTOR).len();
        let l1 = <i128 as TLObject>::spec_to_bytes(m.nonce).len();
        let l2 = <i128 as TLObject>::spec_to_bytes(m.server_nonce).len();
        let l3 = <i128 as TLObject>::spec_to_bytes(m.new_nonce_hash1).len();
        assert((l0 + l1 + l2 + l3) % 4 == 0) by (nonlinear_arith)
            requires
                l0 % 4 == 0,
                l1 % 4 == 0,
                l2 % 4 == 0,
                l3 % 4 == 0,
        ;
        assert(Self::spec_to_bytes(m).len() == l0 + l1 + l2 + l3);
    }
}

/// The wire layout of `dh_gen_ok`: the constructor number as four
/// little-endian bytes, then, in the schema's order:
/// - `nonce` as a 128-bit little-endian two's complement integer;
/// - `server_nonce` as a 128-bit little-endian two's complement integer;
/// - `new_nonce_hash1` as a 128-bit little-endian two's complement integer;
/// so the bytes that `to_bytes` writes carry each field at its place in
/// the schema.
pub proof fn lemma_dh_gen_ok_layout(m: DHGenOkModel)
    ensures
        <DHGenOk as TLObject>::spec_to_bytes(m) == le_bytes(DH_GEN_OK_CONSTRUCTOR as nat, 4)
            + signed_le_bytes(m.nonce as int, 16)
            + signed_le_bytes(m.server_nonce as int, 16)
            + signed_le_bytes(m.new_nonce_hash1 as int, 16),
        <DHGenOk as TLObject>::spec_to_bytes(m).subrange(4, 20) == signed_le_bytes(m.nonce as int, 16),
        <DHGenOk as TLObject>::spec_to_bytes(m).subrange(20, 36) == signed_le_bytes(m.server_nonce as int, 16),
{
    lemma_le_bytes_len(DH_GEN_OK_CONSTRUCTOR as nat, 4);
    lemma_le_bytes_len(to_unsigned(m.nonce as int, 16), 16);
    lemma_le_bytes_len(to_unsigned(m.server_nonce as int, 16), 16);
    let w = <DHGenOk as TLObject>::spec_to_bytes(m);
    assert(w.subrange(4, 20) =~= signed_le_bytes(m.nonce as int, 16));
    assert(w.subrange(20, 36) =~= signed_le_bytes(m.server_nonce as int, 16));
}

/// Decoding `dh_gen_ok` laid out on the wire as the schema says, whatever follows
/// it: each field comes back from its own place, and exactly the message is
/// consumed.
pub proof fn lemma_dh_gen_ok_read_layout(nonce: i128, server_nonce: i128, new_nonce_hash1: i128, rest: Seq<u8>)
    ensures
        <DHGenOk as TLObject>::spec_read(
            le_bytes(DH_GEN_OK_CONSTRUCTOR as nat, 4)
            + signed_le_bytes(nonce as int, 16)
            + signed_le_bytes(server_nonce as int, 16)
            + signed_le_bytes(new_nonce_hash1 as int, 16) + rest,
        ) == Some((DHGenOkModel { nonce, server_nonce, new_nonce_hash1 }, (le_bytes(DH_GEN_OK_CONSTRUCTOR as nat, 4)
            + signed_le_bytes(nonce as int, 16)
            + signed_le_bytes(server_nonce as int, 16)
            + signed_le_bytes(new_nonce_hash1 as int, 16)).len())),
{
    reveal_with_fuel(pow256, 5);
    let m = DHGenOkModel { nonce, server_nonce, new_nonce_hash1 };
    lemma_dh_gen_ok_layout(m);
    <DHGenOk as TLObject>::lemma_read_to_bytes(m, rest);
}

} // verus!
