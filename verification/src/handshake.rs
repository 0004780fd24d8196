//! The computations between the messages of the authorization-key
//! exchange: the temporary AES key, the hashed and padded payloads, the
//! Diffie-Hellman powers, the server salt and the security checks.
use vstd::prelude::*;
use vstd::arithmetic::power::pow;
use crate::reader::TLReader;
use crate::traits::tl_object::{
    TLObject, Int256, append_slice, array_from_bytes, boxed_bytes, signed_le_bytes,
};
use crate::utils::{
    sha1, sha1_digest, xor, xor_bytes, be_value, be_len, big_modpow, big_less, big_sub,
    big_power_of_two, is_zero_be, padding_len, calculate_padding_bytes,
};
use crate::packets::server_dh_inner_data::ServerDHInnerData;
use crate::packets::p_q_inner_data::PQInnerData;
use crate::packets::req_dh_params::ReqDHParams;
use crate::packets::client_dh_inner_data::ClientDHInnerData;
use crate::packets::set_client_dh_params::SetClientDHParams;

verus! {

/// The 2048-bit prime that the server is expected to use for Diffie-Hellman.
pub const CURRENT_DH_PRIME_BYTES: [u8; 256] = [
    199, 28, 174, 185, 198, 177, 201, 4, 142, 108, 82, 47, 112, 241, 63, 115, 152, 13, 64, 35, 142,
    62, 33, 193, 73, 52, 208, 55, 86, 61, 147, 15, 72, 25, 138, 10, 167, 193, 64, 88, 34, 148, 147,
    210, 37, 48, 244, 219, 250, 51, 111, 110, 10, 201, 37, 19, 149, 67, 174, 212, 76, 206, 124, 55,
    32, 253, 81, 246, 148, 88, 112, 90, 198, 140, 212, 254, 107, 107, 19, 171, 220, 151, 70, 81, 41,
    105, 50, 132, 84, 241, 143, 175, 140, 89, 95, 100, 36, 119, 254, 150, 187, 42, 148, 29, 91, 205,
    29, 74, 200, 204, 73, 136, 7, 8, 250, 155, 55, 142, 60, 79, 58, 144, 96, 190, 230, 124, 249, 164,
    164, 166, 149, 129, 16, 81, 144, 126, 22, 39, 83, 181, 107, 15, 107, 65, 13, 186, 116, 216, 168,
    75, 42, 20, 179, 20, 78, 14, 241, 40, 71, 84, 253, 23, 237, 149, 13, 89, 101, 180, 185, 221, 70,
    88, 45, 177, 23, 141, 22, 156, 107, 196, 101, 176, 214, 255, 156, 163, 146, 143, 239, 91, 154,
    228, 228, 24, 252, 21, 232, 62, 190, 160, 248, 127, 169, 255, 94, 237, 112, 5, 13, 237, 40, 73,
    244, 123, 249, 89, 217, 86, 133, 12, 233, 41, 133, 31, 13, 129, 21, 246, 53, 177, 5, 238, 46,
    78, 21, 208, 75, 36, 84, 191, 111, 79, 173, 240, 52, 177, 4, 3, 17, 156, 216, 227, 185, 47, 204,
    91,
];

/// The little-endian bytes of a 128-bit nonce.
pub open spec fn nonce_bytes(nonce: i128) -> Seq<u8> {
    signed_le_bytes(nonce as int, 16)
}

/// The temporary AES key: `SHA1(new_nonce + server_nonce)` and the first 12
/// bytes of `SHA1(server_nonce + new_nonce)`.
pub open spec fn tmp_aes_key(new_nonce: Seq<u8>, server_nonce: Seq<u8>) -> Seq<u8> {
    sha1(new_nonce + server_nonce) + sha1(server_nonce + new_nonce).take(12)
}

/// The temporary AES IV: the last 8 bytes of `SHA1(server_nonce + new_nonce)`,
/// `SHA1(new_nonce + new_nonce)` and the first 4 bytes of `new_nonce`.
pub open spec fn tmp_aes_iv(new_nonce: Seq<u8>, server_nonce: Seq<u8>) -> Seq<u8> {
    sha1(server_nonce + new_nonce).skip(12) + sha1(new_nonce + new_nonce) + new_nonce.take(4)
}

fn concat(a: &[u8], b: &[u8]) -> (r: Vec<u8>)
    ensures
        r@ == a@ + b@,
{
    let mut r: Vec<u8> = Vec::new();
    append_slice(&mut r, a);
    append_slice(&mut r, b);
    assert(r@ =~= a@ + b@);
    r
}

/// The temporary AES key and IV that encrypt the Diffie-Hellman messages,
/// derived from the client's new nonce and the server nonce.
pub fn tmp_aes_key_iv(new_nonce: &Int256, server_nonce: i128) -> (r: ([u8; 32], [u8; 32]))
    ensures
        r.0@ == tmp_aes_key(new_nonce.le_bytes@, nonce_bytes(server_nonce)),
        r.1@ == tmp_aes_iv(new_nonce.le_bytes@, nonce_bytes(server_nonce)),
{
    let nn = new_nonce.to_le_bytes();
    let sn = server_nonce.to_bytes();
    let nn_sn = sha1_digest(&concat(nn.as_slice(), sn.as_slice()));
    let sn_nn = sha1_digest(&concat(sn.as_slice(), nn.as_slice()));
    let nn_nn = sha1_digest(&concat(nn.as_slice(), nn.as_slice()));
    let mut key: Vec<u8> = Vec::new();
    append_slice(&mut key, nn_sn.as_slice());
    let mut i: usize = 0;
    while i < 12
        invariant
            i <= 12,
            sn_nn@.len() == 20,
            key@ == nn_sn@ + sn_nn@.take(i as int),
        decreases 12 - i,
    {
        key.push(sn_nn[i]);
        assert(key@ =~= nn_sn@ + sn_nn@.take(i + 1));
        i = i + 1;
    }
    let mut iv: Vec<u8> = Vec::new();
    let mut j: usize = 12;
    while j < 20
        invariant
            12 <= j <= 20,
            sn_nn@.len() == 20,
            iv@ == sn_nn@.subrange(12, j as int),
        decreases 20 - j,
    {
        iv.push(sn_nn[j]);
        assert(iv@ =~= sn_nn@.subrange(12, j + 1));
        j = j + 1;
    }
    append_slice(&mut iv, nn_nn.as_slice());
    let mut k: usize = 0;
    while k < 4
        invariant
            k <= 4,
            nn@.len() == 32,
            iv@ == sn_nn@.subrange(12, 20) + nn_nn@ + nn@.take(k as int),
        decreases 4 - k,
    {
        iv.push(nn[k]);
        assert(iv@ =~= sn_nn@.subrange(12, 20) + nn_nn@ + nn@.take(k + 1));
        k = k + 1;
    }
    assert(sn_nn@.subrange(12, 20) =~= sn_nn@.skip(12));
    let key_array: [u8; 32] = array_from_bytes(key.as_slice());
    let iv_array: [u8; 32] = array_from_bytes(iv.as_slice());
    (key_array, iv_array)
}

/// The server salt: the first 8 bytes of the new nonce xor those of the server nonce.
pub fn server_salt(new_nonce: &Int256, server_nonce: i128) -> (r: Vec<u8>)
    ensures
        r@ == xor_bytes(new_nonce.le_bytes@.take(8), nonce_bytes(server_nonce).take(8)),
{
    let nn = new_nonce.to_le_bytes();
    let sn = server_nonce.to_bytes();
    proof {
        crate::le::lemma_le_bytes_len(
            crate::traits::tl_object::to_unsigned(server_nonce as int, 16),
            16,
        );
    }
    let mut a: Vec<u8> = Vec::new();
    let mut b: Vec<u8> = Vec::new();
    let mut i: usize = 0;
    while i < 8
        invariant
            i <= 8,
            nn@.len() == 32,
            sn@.len() == 16,
            a@ == nn@.take(i as int),
            b@ == sn@.take(i as int),
        decreases 8 - i,
    {
        a.push(nn[i]);
        b.push(sn[i]);
        assert(a@ =~= nn@.take(i + 1));
        assert(b@ =~= sn@.take(i + 1));
        i = i + 1;
    }
    xor(a.as_slice(), b.as_slice())
}

/// `SHA1(data)`, `data` and `padding`, one after another: the form in which
/// the inner data of the exchange is encrypted.
pub fn data_with_hash(data: &[u8], padding: &[u8]) -> (r: Vec<u8>)
    ensures
        r@ == sha1(data@) + data@ + padding@,
        r@.len() == 20 + data@.len() + padding@.len(),
{
    let digest = sha1_digest(data);
    let mut r: Vec<u8> = Vec::new();
    append_slice(&mut r, digest.as_slice());
    append_slice(&mut r, data);
    append_slice(&mut r, padding);
    r
}

/// How many random bytes follow the hashed `p_q_inner_data` of `inner_len`
/// bytes so that the RSA plaintext is 255 bytes long.
pub fn rsa_padding_len(inner_len: usize) -> (len: usize)
    requires
        inner_len + 20 <= 255,
    ensures
        len == 255 - (inner_len + 20),
{
    255 - (inner_len + 20)
}

/// How many random bytes follow the hashed `client_DH_inner_data` of
/// `inner_len` bytes so that the AES plaintext is whole 16-byte blocks.
pub fn dh_padding_len(inner_len: usize) -> (len: usize)
    requires
        inner_len + 20 <= usize::MAX,
    ensures
        len == padding_len((inner_len + 20) as nat, 16),
        (inner_len + 20 + len) % 16 == 0,
{
    calculate_padding_bytes(inner_len + 20, 16)
}

/// The four big-endian bytes of `x`.
pub open spec fn u32_be(x: u32) -> Seq<u8> {
    seq![(x / 16777216) as u8, (x / 65536 % 256) as u8, (x / 256 % 256) as u8, (x % 256) as u8]
}

/// The four big-endian bytes of `x`.
fn u32_be_bytes(x: u32) -> (r: Vec<u8>)
    ensures
        be_value(r@) == x,
        r@.len() == 4,
        r@ == u32_be(x),
{
    let mut r: Vec<u8> = Vec::new();
    r.push((x / 16777216) as u8);
    r.push((x / 65536 % 256) as u8);
    r.push((x / 256 % 256) as u8);
    r.push((x % 256) as u8);
    proof {
        reveal_with_fuel(be_value, 5);
        let s = r@;
        assert(s.drop_last().drop_last().drop_last().drop_last() =~= Seq::<u8>::empty());
        assert(s =~= u32_be(x));
    }
    r
}

/// The four big-endian bytes of `x`, boxed, as the handshake sends `p` and `q`.
fn u32_be_box(x: u32) -> (r: Box<[u8; 4]>)
    ensures
        r@ == u32_be(x),
{
    let v = u32_be_bytes(x);
    let a: [u8; 4] = array_from_bytes(v.as_slice());
    Box::new(a)
}

/// The `p_q_inner_data` that the client encrypts for the server: the number
/// `pq` from `resPQ`, its factors `p` and `q` in big-endian bytes, the two
/// nonces and the client's new nonce.
pub fn build_p_q_inner_data(
    pq: &Box<[u8; 8]>,
    p: u32,
    q: u32,
    nonce: i128,
    server_nonce: i128,
    new_nonce: Int256,
) -> (r: PQInnerData)
    ensures
        r.pq@ == pq@,
        r.p@ == u32_be(p),
        r.q@ == u32_be(q),
        r.nonce == nonce,
        r.server_nonce == server_nonce,
        r.new_nonce == new_nonce,
{
    let pq_bytes: [u8; 8] = **pq;
    PQInnerData {
        pq: Box::new(pq_bytes),
        p: u32_be_box(p),
        q: u32_be_box(q),
        nonce,
        server_nonce,
        new_nonce,
    }
}

/// The `req_DH_params` request: the two nonces, `p` and `q` in big-endian
/// bytes, the fingerprint of the server key used and the RSA ciphertext.
pub fn build_req_dh_params(
    nonce: i128,
    server_nonce: i128,
    p: u32,
    q: u32,
    public_key_fingerprint: i64,
    encrypted_data: Box<[u8; 256]>,
) -> (r: ReqDHParams)
    ensures
        r.nonce == nonce,
        r.server_nonce == server_nonce,
        r.p@ == u32_be(p),
        r.q@ == u32_be(q),
        r.public_key_fingerprint == public_key_fingerprint,
        r.encrypted_data@ == encrypted_data@,
{
    ReqDHParams {
        nonce,
        server_nonce,
        p: u32_be_box(p),
        q: u32_be_box(q),
        public_key_fingerprint,
        encrypted_data,
    }
}

/// The client's `client_DH_inner_data` on its first attempt (retry id 0),
/// carrying `g_b`.
pub fn build_client_dh_inner_data(nonce: i128, server_nonce: i128, g_b: [u8; 256]) -> (r:
    ClientDHInnerData)
    ensures
        r.nonce == nonce,
        r.server_nonce == server_nonce,
        r.retry_id == 0,
        r.g_b@ == g_b@,
{
    ClientDHInnerData { nonce, server_nonce, retry_id: 0, g_b: Box::new(g_b) }
}

/// The `set_client_DH_params` request carrying the encrypted
/// `client_DH_inner_data`.
pub fn build_set_client_dh_params(nonce: i128, server_nonce: i128, encrypted_data: Vec<u8>) -> (r:
    SetClientDHParams)
    ensures
        r.nonce == nonce,
        r.server_nonce == server_nonce,
        r.encrypted_data@ == encrypted_data@,
{
    SetClientDHParams { nonce, server_nonce, encrypted_data: boxed_bytes(encrypted_data) }
}

/// `g^b mod dh_prime` in 256 big-endian bytes, where `g` is taken as an
/// unsigned 32-bit number. `None` where `dh_prime` is zero or the result's
/// shortest form is not 256 bytes long.
pub fn compute_g_b(g: i32, b: &[u8; 256], dh_prime: &[u8]) -> (r: Option<[u8; 256]>)
    ensures
        be_value(dh_prime@) == 0 ==> r is None,
        be_value(dh_prime@) > 0 ==> {
            let v = pow((g as u32) as int, be_value(b@)) % (be_value(dh_prime@) as int);
            match r {
                Some(bytes) => be_value(bytes@) == v && be_len(v as nat) == 256,
                None => be_len(v as nat) != 256,
            }
        },
{
    if is_zero_be(dh_prime) {
        return None;
    }
    let g_bytes = u32_be_bytes(g as u32);
    let power = big_modpow(g_bytes.as_slice(), b.as_slice(), dh_prime);
    if power.len() != 256 {
        return None;
    }
    Some(array_from_bytes(power.as_slice()))
}

/// The authorization key `g_a^b mod dh_prime`, in its shortest big-endian
/// form. `None` where `dh_prime` is zero.
pub fn compute_auth_key(g_a: &[u8], b: &[u8; 256], dh_prime: &[u8]) -> (r: Option<Vec<u8>>)
    ensures
        be_value(dh_prime@) == 0 ==> r is None,
        be_value(dh_prime@) > 0 ==> (r matches Some(key) && be_value(key@) == pow(
            be_value(g_a@) as int,
            be_value(b@),
        ) % (be_value(dh_prime@) as int) && key@.len() == be_len(be_value(key@))),
{
    if is_zero_be(dh_prime) {
        return None;
    }
    Some(big_modpow(g_a, b.as_slice(), dh_prime))
}

/// The checks that the client makes of the server's Diffie-Hellman
/// parameters and of its own `g_b`: the prime is the expected one;
/// `1 < g < dh_prime - 1`; `g_a` and `g_b` are below `dh_prime - 1`; and
/// both lie strictly between `2^(2048-64)` and `dh_prime - 2^(2048-64)`.
pub open spec fn dh_params_safe(dh_prime: nat, g: int, g_a: nat, g_b: nat) -> bool {
    let bound = pow(2, 1984) as nat;
    &&& dh_prime == be_value(CURRENT_DH_PRIME_BYTES@)
    &&& 1 < g
    &&& g < dh_prime - 1
    &&& g_a < dh_prime - 1
    &&& g_b < dh_prime - 1
    &&& bound < g_a
    &&& g_a < dh_prime - bound
    &&& bound < g_b
    &&& g_b < dh_prime - bound
}

/// Whether the Diffie-Hellman parameters pass the security checks.
pub fn check_dh_params(dh_prime: &[u8], g: i32, g_a: &[u8], g_b: &[u8]) -> (ok: bool)
    ensures
        ok == dh_params_safe(be_value(dh_prime@), g as int, be_value(g_a@), be_value(g_b@)),
{
    let current: &[u8] = CURRENT_DH_PRIME_BYTES.as_slice();
    if big_less(dh_prime, current) || big_less(current, dh_prime) {
        return false;
    }
    if !(1 < g) {
        return false;
    }
    let one = u32_be_bytes(1);
    if !big_less(one.as_slice(), dh_prime) {
        return false;
    }
    let subtracted = big_sub(dh_prime, one.as_slice());
    let g_bytes = u32_be_bytes(g as u32);
    if !big_less(g_bytes.as_slice(), subtracted.as_slice()) || !big_less(g_a, subtracted.as_slice())
        || !big_less(g_b, subtracted.as_slice()) {
        return false;
    }
    let bound = big_power_of_two(2048 - 64);
    if !big_less(bound.as_slice(), dh_prime) {
        return false;
    }
    let upper = big_sub(dh_prime, bound.as_slice());
    big_less(bound.as_slice(), g_a) && big_less(g_a, upper.as_slice()) && big_less(
        bound.as_slice(),
        g_b,
    ) && big_less(g_b, upper.as_slice())
}

/// Whether the first 20 bytes of the decrypted `server_DH_inner_data` are
/// the SHA-1 digest of the encoding of the object read from it.
pub fn check_server_dh_inner_hash(decrypted: &[u8], inner: &ServerDHInnerData) -> (ok: bool)
    requires
        decrypted@.len() >= 20,
    ensures
        ok == (decrypted@.take(20) == sha1(ServerDHInnerData::spec_to_bytes(inner.model()))),
{
    let serialized = inner.to_bytes();
    let digest = sha1_digest(serialized.as_slice());
    let mut i: usize = 0;
    while i < 20
        invariant
            i <= 20,
            decrypted@.len() >= 20,
            digest@.len() == 20,
            digest@ == sha1(ServerDHInnerData::spec_to_bytes(inner.model())),
            decrypted@.take(i as int) == digest@.take(i as int),
        decreases 20 - i,
    {
        if decrypted[i] != digest[i] {
            assert(decrypted@.take(20)[i as int] != digest@[i as int]);
            assert(decrypted@.take(20) != digest@);
            return false;
        }
        assert(decrypted@.take(i + 1) =~= digest@.take(i + 1));
        i = i + 1;
    }
    assert(digest@.take(20) =~= digest@);
    true
}

/// Whether the nonces that the server echoed are the client's: the nonce
/// in `resPQ`, in `server_DH_params_ok` and in `dh_gen_ok`, and the server
/// nonce in `server_DH_params_ok`.
pub fn nonces_match(
    nonce: i128,
    server_nonce: i128,
    res_pq_nonce: i128,
    params_nonce: i128,
    params_server_nonce: i128,
    gen_ok_nonce: i128,
) -> (ok: bool)
    ensures
        ok == (nonce == res_pq_nonce && nonce == params_nonce && nonce == gen_ok_nonce
            && server_nonce == params_server_nonce),
{
    nonce == res_pq_nonce && nonce == params_nonce && nonce == gen_ok_nonce && server_nonce
        == params_server_nonce
}

/// Reads a `T` from `data` after its first `offset` bytes (the header of a
/// message, or the hash before an encrypted payload). `None` where `data`
/// is shorter than `offset` or the bytes after it do not hold a `T`.
pub fn read_at<T: TLObject>(data: &[u8], offset: usize) -> (r: Option<T>)
    ensures
        data@.len() < offset ==> r is None,
        data@.len() >= offset ==> match T::spec_read(data@.skip(offset as int)) {
            Some((m, n)) => r matches Some(x) && x.model() == m,
            None => r is None,
        },
{
    if data.len() < offset {
        return None;
    }
    let mut reader = TLReader::new(data);
    reader.rewind(offset);
    T::read_from(&mut reader)
}

} // verus!
