//! Helpers of the handshake: alignment padding, byte-wise xor, and the
//! cryptographic and number-theoretic primitives that the key exchange
//! calls.
use vstd::prelude::*;
use vstd::arithmetic::power::pow;
use aes::cipher::{block_padding::NoPadding, BlockDecryptMut, BlockEncryptMut, KeyIvInit};
use num::BigUint;
use rsa::pkcs8::DecodePublicKey;
use rsa::traits::PublicKeyParts;
use sha1::Digest;

verus! {

/// How many bytes bring `len` up to the next multiple of `align`.
pub open spec fn padding_len(len: nat, align: nat) -> nat {
    ((align - len % align) % align as int) as nat
}

/// Padding brings a length to a multiple of the alignment, with fewer bytes than the alignment.
pub proof fn lemma_padding_len(len: nat, align: nat)
    requires
        align > 0,
    ensures
        padding_len(len, align) < align,
        (len + padding_len(len, align)) % align == 0,
{
    let a = align as int;
    let r = len % align;
    let q = len as int / a;
    vstd::arithmetic::div_mod::lemma_fundamental_div_mod(len as int, a);
    if r == 0 {
        vstd::arithmetic::div_mod::lemma_mod_self_0(a);
        vstd::arithmetic::div_mod::lemma_mod_multiples_basic(q, a);
        assert(a * q == q * a) by (nonlinear_arith);
    } else {
        vstd::arithmetic::div_mod::lemma_small_mod((align - r) as nat, align);
        vstd::arithmetic::div_mod::lemma_mod_multiples_basic(q + 1, a);
        assert((q + 1) * a == a * q + a) by (nonlinear_arith);
    }
}

/// How many bytes must follow `len` bytes so that the total is a multiple of `align`.
pub fn calculate_padding_bytes(len: usize, align: usize) -> (pad: usize)
    requires
        align > 0,
    ensures
        pad == padding_len(len as nat, align as nat),
        pad < align,
        (len + pad) % (align as int) == 0,
{
    let r = len % align;
    let pad = (align - r) % align;
    proof {
        lemma_padding_len(len as nat, align as nat);
    }
    pad
}


/// The number that the big-endian bytes `s` denote.
pub open spec fn be_value(s: Seq<u8>) -> nat
    decreases s.len(),
{
    if s.len() == 0 {
        0
    } else {
        be_value(s.drop_last()) * 256 + s.last() as nat
    }
}

/// How many bytes the shortest big-endian form of `x` has (one for zero).
pub open spec fn be_len(x: nat) -> nat
    decreases x,
{
    if x < 256 {
        1
    } else {
        1 + be_len(x / 256)
    }
}

/// The SHA-1 digest of `data`.
pub uninterp spec fn sha1(data: Seq<u8>) -> Seq<u8>;

/// SHA-1 (`sha1::Sha1`: `new`, `update`, `finalize`). Stated: the digest,
/// 20 bytes, is a function of the input alone, named `sha1`.
#[verifier::external_body]
fn sha1_bytes(payload: &[u8]) -> (d: [u8; 20])
    ensures
        d@ == sha1(payload@),
{
    let mut object = sha1::Sha1::new();
    object.update(payload);
    object.finalize().into()
}

/// The SHA-1 digest of `payload`.
pub fn sha1_digest(payload: &[u8]) -> (d: Box<[u8; 20]>)
    ensures
        d@ == sha1(payload@),
        d@.len() == 20,
{
    Box::new(sha1_bytes(payload))
}

/// AES-256 in IGE mode without padding: the encryption of `plaintext`.
pub uninterp spec fn aes256_ige_encrypted(plaintext: Seq<u8>, key: Seq<u8>, iv: Seq<u8>) -> Seq<u8>;

/// AES-256 in IGE mode without padding: the decryption of `ciphertext`.
pub uninterp spec fn aes256_ige_decrypted(ciphertext: Seq<u8>, key: Seq<u8>, iv: Seq<u8>) -> Seq<u8>;

/// `ige::Decryptor<aes::Aes256>` with `decrypt_padded_mut::<NoPadding>`, which
/// fails on an input that is not made of whole 16-byte blocks (left out by
/// `requires`). Stated: the result has the input's length and is a function
/// of the input, the key and the IV, named `aes256_ige_decrypted`.
#[verifier::external_body]
fn ige_decrypt(ciphertext: &[u8], key: &[u8; 32], iv: &[u8; 32]) -> (r: Vec<u8>)
    requires
        ciphertext@.len() % 16 == 0,
    ensures
        r@ == aes256_ige_decrypted(ciphertext@, key@, iv@),
        r@.len() == ciphertext@.len(),
{
    let cipher = ige::Decryptor::<aes::Aes256>::new(key.into(), iv.into());
    let mut buffer = ciphertext.to_vec();
    cipher.decrypt_padded_mut::<NoPadding>(&mut buffer).unwrap();
    buffer
}

/// `ige::Encryptor<aes::Aes256>` with `encrypt_padded_mut::<NoPadding>`,
/// which cannot pad an input that is not made of whole 16-byte blocks (left
/// out by `requires`). Stated: the result has the input's length, is a
/// function of the input, the key and the IV, named `aes256_ige_encrypted`,
/// and decrypting it with the same key and IV gives the input back, as the
/// crate's documented example shows.
#[verifier::external_body]
fn ige_encrypt(plaintext: &[u8], key: &[u8; 32], iv: &[u8; 32]) -> (r: Vec<u8>)
    requires
        plaintext@.len() % 16 == 0,
    ensures
        r@ == aes256_ige_encrypted(plaintext@, key@, iv@),
        r@.len() == plaintext@.len(),
        aes256_ige_decrypted(r@, key@, iv@) == plaintext@,
{
    let cipher = ige::Encryptor::<aes::Aes256>::new(key.into(), iv.into());
    let mut buffer = plaintext.to_vec();
    let len = buffer.len();
    cipher.encrypt_padded_mut::<NoPadding>(&mut buffer, len).unwrap();
    buffer
}

/// Decrypts `ciphertext`, whole 16-byte blocks, with AES-256 in IGE mode.
pub fn aes256_ige_decrypt(ciphertext: &[u8], key: &[u8; 32], iv: &[u8; 32]) -> (r: Vec<u8>)
    requires
        ciphertext@.len() % 16 == 0,
    ensures
        r@ == aes256_ige_decrypted(ciphertext@, key@, iv@),
        r@.len() == ciphertext@.len(),
{
    ige_decrypt(ciphertext, key, iv)
}

/// Encrypts `plaintext`, whole 16-byte blocks, with AES-256 in IGE mode.
pub fn aes256_ige_encrypt(plaintext: &[u8], key: &[u8; 32], iv: &[u8; 32]) -> (r: Vec<u8>)
    requires
        plaintext@.len() % 16 == 0,
    ensures
        r@ == aes256_ige_encrypted(plaintext@, key@, iv@),
        r@.len() == plaintext@.len(),
        aes256_ige_decrypted(r@, key@, iv@) == plaintext@,
{
    ige_encrypt(plaintext, key, iv)
}

/// `(base ^ exponent) mod modulus` on big-endian numbers, by
/// `num::BigUint::from_bytes_be`, `modpow` and `to_bytes_be`. `modpow`
/// panics on a zero modulus (left out by `requires`). Stated: the result
/// is the number the documentation gives, in its shortest big-endian form
/// (one zero byte for zero), as `to_bytes_be` writes it.
#[verifier::external_body]
pub(crate) fn big_modpow(base: &[u8], exponent: &[u8], modulus: &[u8]) -> (r: Vec<u8>)
    requires
        be_value(modulus@) > 0,
    ensures
        be_value(r@) == pow(be_value(base@) as int, be_value(exponent@)) % (be_value(
            modulus@,
        ) as int),
        r@.len() == be_len(be_value(r@)),
{
    let b = BigUint::from_bytes_be(base);
    let e = BigUint::from_bytes_be(exponent);
    let m = BigUint::from_bytes_be(modulus);
    b.modpow(&e, &m).to_bytes_be()
}

/// `a < b` on big-endian numbers, by `num::BigUint::from_bytes_be` and `<`.
/// Stated: the numeric comparison.
#[verifier::external_body]
pub(crate) fn big_less(a: &[u8], b: &[u8]) -> (r: bool)
    ensures
        r == (be_value(a@) < be_value(b@)),
{
    BigUint::from_bytes_be(a) < BigUint::from_bytes_be(b)
}

/// `a - b` on big-endian numbers, by `num::BigUint::from_bytes_be`, `-` and
/// `to_bytes_be`. The subtraction panics where `b > a` (left out by
/// `requires`). Stated: the difference, in its shortest big-endian form.
#[verifier::external_body]
pub(crate) fn big_sub(a: &[u8], b: &[u8]) -> (r: Vec<u8>)
    requires
        be_value(a@) >= be_value(b@),
    ensures
        be_value(r@) == be_value(a@) - be_value(b@),
        r@.len() == be_len(be_value(r@)),
{
    (BigUint::from_bytes_be(a) - BigUint::from_bytes_be(b)).to_bytes_be()
}

/// `2^k` in big-endian bytes, by `num::BigUint::one() << k` and
/// `to_bytes_be`. Stated: the power of two, in its shortest big-endian form.
#[verifier::external_body]
pub(crate) fn big_power_of_two(k: usize) -> (r: Vec<u8>)
    ensures
        be_value(r@) == pow(2, k as nat),
        r@.len() == be_len(be_value(r@)),
{
    (<BigUint as num::One>::one() << k).to_bytes_be()
}

/// Whether all bytes of `s` are zero, that is, whether it denotes zero.
pub fn is_zero_be(s: &[u8]) -> (z: bool)
    ensures
        z == (be_value(s@) == 0),
{
    let mut i: usize = 0;
    while i < s.len()
        invariant
            i <= s@.len(),
            be_value(s@.take(i as int)) == 0,
        decreases s@.len() - i,
    {
        assert(s@.take(i + 1).drop_last() =~= s@.take(i as int));
        if s[i] != 0 {
            proof {
                lemma_be_value_prefix_bound(s@, i + 1);
            }
            return false;
        }
        i = i + 1;
    }
    assert(s@.take(s@.len() as int) =~= s@);
    true
}

/// A number is at least the number its leading bytes denote, scaled.
proof fn lemma_be_value_prefix_bound(s: Seq<u8>, k: int)
    requires
        0 <= k <= s.len(),
    ensures
        be_value(s) >= be_value(s.take(k)),
    decreases s.len(),
{
    if k < s.len() {
        lemma_be_value_prefix_bound(s.drop_last(), k);
        assert(s.drop_last().take(k) =~= s.take(k));
    } else {
        assert(s.take(k) =~= s);
    }
}

/// RSA encryption of `payload` with the public modulus `m` and exponent `e`
/// (all big-endian): `payload ^ e mod m` in 256 bytes. `None` where the
/// modulus is zero or the result's shortest form is not 256 bytes long.
pub fn rsa_encrypt(payload: &[u8], m: &[u8], e: &[u8]) -> (r: Option<Box<[u8; 256]>>)
    ensures
        be_value(m@) == 0 ==> r is None,
        be_value(m@) > 0 ==> {
            let c = pow(be_value(payload@) as int, be_value(e@)) % (be_value(m@) as int);
            match r {
                Some(bytes) => bytes@.len() == 256 && be_value(bytes@) == c && be_len(c as nat)
                    == 256,
                None => be_len(c as nat) != 256,
            }
        },
{
    if is_zero_be(m) {
        return None;
    }
    let encrypted = big_modpow(payload, e, m);
    if encrypted.len() != 256 {
        return None;
    }
    let a: [u8; 256] = crate::traits::tl_object::array_from_bytes(encrypted.as_slice());
    Some(Box::new(a))
}

/// A number is prime: at least two, and no number between two and itself divides it.
pub open spec fn is_prime(n: nat) -> bool {
    &&& n >= 2
    &&& forall|d: nat| 2 <= d < n ==> !#[trigger] divides(d, n)
}

pub open spec fn divides(d: nat, n: nat) -> bool {
    n % d == 0
}

/// The product of the numbers in `s`.
pub open spec fn product(s: Seq<u64>) -> nat
    decreases s.len(),
{
    if s.len() == 0 {
        1
    } else {
        s[0] as nat * product(s.drop_first())
    }
}

/// The prime factors of `num`, with multiplicity.
pub uninterp spec fn prime_factorization(num: u64) -> Seq<u64>;

/// `prime_factorization::Factorization::run(num).factors`. Stated, from the
/// crate's documentation: a function of `num` alone, named
/// `prime_factorization`; empty below two; else primes, smallest first,
/// whose product is `num`.
#[verifier::external_body]
fn factorize(num: u64) -> (f: Vec<u64>)
    ensures
        f@ == prime_factorization(num),
        num <= 1 ==> f@.len() == 0,
        num >= 2 ==> {
            &&& product(f@) == num
            &&& forall|i: int, j: int| 0 <= i <= j < f@.len() ==> f@[i] <= f@[j]
            &&& forall|i: int| 0 <= i < f@.len() ==> is_prime(#[trigger] f@[i] as nat)
        },
{
    prime_factorization::Factorization::run(num).factors
}

/// The two smallest prime factors of `num` (each truncated to 32 bits), as
/// the factors `p` and `q` of the handshake's `pq`. `None` where `num` has
/// fewer than two prime factors. Where `num` is the product of two primes
/// `p <= q`, the result is `(p, q)`: the factorization is unique.
pub fn prime_decompose(num: u64) -> (r: Option<(u32, u32)>)
    ensures
        ({
            let f = prime_factorization(num);
            if f.len() >= 2 {
                r == Some((f[0] as u32, f[1] as u32))
            } else {
                r is None
            }
        }),
        prime_factorization(num).len() == 2 && prime_factorization(num)[1] <= u32::MAX ==> (
        r matches Some((p, q)) ==> p <= q && p as nat * q as nat == num),
        num <= 1 ==> prime_factorization(num).len() == 0,
        num >= 2 ==> {
            let f = prime_factorization(num);
            &&& product(f) == num
            &&& forall|i: int, j: int| 0 <= i <= j < f.len() ==> f[i] <= f[j]
            &&& forall|i: int| 0 <= i < f.len() ==> is_prime(#[trigger] f[i] as nat)
        },
        forall|p: nat, q: nat|
            #![trigger is_prime(p), is_prime(q)]
            is_prime(p) && is_prime(q) && p <= q && p * q == num ==> r == Some((p as u32, q as u32)),
{
    let factors = factorize(num);
    proof {
        assert forall|p: nat, q: nat|
            #![trigger is_prime(p), is_prime(q)]
            is_prime(p) && is_prime(q) && p <= q && p * q == num implies factors@.len() == 2
            && factors@[0] == p && factors@[1] == q by {
            assert(p * q >= 4) by (nonlinear_arith)
                requires
                    p >= 2,
                    q >= 2,
            ;
            crate::primes::lemma_semiprime_factorization(factors@, p, q);
        }
    }
    if factors.len() < 2 {
        return None;
    }
    proof {
        let f = factors@;
        if f.len() == 2 {
            assert(f.drop_first().drop_first().len() == 0);
            assert(f.drop_first()[0] == f[1]);
            let t = f.drop_first();
            assert(t.len() == 1);
            assert(product(t.drop_first()) == 1);
            assert(product(t) == t[0] as nat * product(t.drop_first()));
            assert(t[0] as nat * 1 == t[0] as nat) by (nonlinear_arith);
            assert(product(t) == f[1] as nat);
            assert(product(f) == f[0] as nat * f[1] as nat);
            if f[1] <= u32::MAX {
                assert(f[0] <= f[1]);
                assert(f[0] as u32 == f[0] && f[1] as u32 == f[1]);
            }
        }
    }
    Some((factors[0] as u32, factors[1] as u32))
}

/// Byte-wise exclusive or of `a` and `b`, as long as the shorter of them.
pub open spec fn xor_bytes(a: Seq<u8>, b: Seq<u8>) -> Seq<u8> {
    Seq::new(
        if a.len() <= b.len() {
            a.len()
        } else {
            b.len()
        },
        |i: int| a[i] ^ b[i],
    )
}

/// Byte-wise exclusive or of `a` and `b`, as long as the shorter of them.
pub fn xor(a: &[u8], b: &[u8]) -> (r: Vec<u8>)
    ensures
        r@ == xor_bytes(a@, b@),
{
    let n = if a.len() <= b.len() {
        a.len()
    } else {
        b.len()
    };
    let mut out: Vec<u8> = Vec::new();
    let mut i: usize = 0;
    while i < n
        invariant
            i <= n,
            n <= a@.len(),
            n <= b@.len(),
            out@.len() == i,
            forall|j: int| 0 <= j < i ==> out@[j] == a@[j] ^ b@[j],
        decreases n - i,
    {
        out.push(a[i] ^ b[i]);
        i = i + 1;
    }
    assert(out@ =~= xor_bytes(a@, b@));
    out
}

/// Xor with the same bytes twice gives the bytes back.
pub proof fn lemma_xor_involutive(a: Seq<u8>, b: Seq<u8>)
    requires
        a.len() == b.len(),
    ensures
        xor_bytes(xor_bytes(a, b), b) == a,
{
    assert forall|i: int| 0 <= i < a.len() implies #[trigger] xor_bytes(xor_bytes(a, b), b)[i]
        == a[i] by {
        let x = a[i];
        let y = b[i];
        assert((x ^ y) ^ y == x) by (bit_vector);
    }
    assert(xor_bytes(xor_bytes(a, b), b) =~= a);
}

/// An RSA public key: modulus and exponent, big-endian.
pub struct RsaKey {
    pub n: Vec<u8>,
    pub e: Vec<u8>,
}

/// The modulus and exponent of the RSA public key in PEM text `text`, or
/// `None` where the text holds no such key.
pub uninterp spec fn pem_public_key(text: Seq<char>) -> Option<(Seq<u8>, Seq<u8>)>;

/// `rsa::RsaPublicKey::from_public_key_pem` (SubjectPublicKeyInfo PEM), then
/// the key's `n()` and `e()` as big-endian bytes. Stated: the outcome is a
/// function of the text alone, named `pem_public_key`.
#[verifier::external_body]
fn parse_public_key_pem(text: &str) -> (r: Option<RsaKey>)
    ensures
        match r {
            Some(k) => pem_public_key(text@) == Some((k.n@, k.e@)),
            None => pem_public_key(text@) is None,
        },
{
    match rsa::RsaPublicKey::from_public_key_pem(text) {
        Ok(key) => Some(RsaKey { n: key.n().to_bytes_be(), e: key.e().to_bytes_be() }),
        Err(_) => None,
    }
}

/// Why no server key was chosen.
#[derive(Debug, Clone, Copy, PartialEq, Eq)]
pub enum CertError {
    /// None of the fingerprints has a key at hand.
    NotFound,
    /// The first key at hand is no valid PEM public key.
    InvalidKey,
}

/// The index of the first entry of `texts` that holds a text.
pub open spec fn first_available(texts: Seq<Option<String>>) -> Option<int> {
    if exists|i: int| 0 <= i < texts.len() && texts[i] is Some {
        Some(
            choose|i: int|
                0 <= i < texts.len() && texts[i] is Some && forall|j: int|
                    0 <= j < i ==> texts[j] is None,
        )
    } else {
        None
    }
}

/// Chooses the server key: the first fingerprint of `values` for which a
/// PEM text is at hand (`pem_texts[i]` is the text for `values[i]`, if the
/// key is known), with its parsed key.
pub fn find_cert(values: &Vec<i64>, pem_texts: &Vec<Option<String>>) -> (r: Result<
    (i64, RsaKey),
    CertError,
>)
    requires
        pem_texts@.len() == values@.len(),
    ensures
        match first_available(pem_texts@) {
            None => r == Err::<(i64, RsaKey), CertError>(CertError::NotFound),
            Some(i) => match pem_public_key(pem_texts@[i]->0@) {
                Some((n, e)) => r matches Ok((fp, key)) && fp == values@[i] && key.n@ == n
                    && key.e@ == e,
                None => r == Err::<(i64, RsaKey), CertError>(CertError::InvalidKey),
            },
        },
{
    let mut i: usize = 0;
    while i < values.len()
        invariant
            i <= values@.len(),
            pem_texts@.len() == values@.len(),
            forall|j: int| 0 <= j < i ==> pem_texts@[j] is None,
        decreases values@.len() - i,
    {
        match &pem_texts[i] {
            Some(text) => {
                proof {
                    let k = i as int;
                    assert(0 <= k < pem_texts@.len() && pem_texts@[k] is Some);
                    let c = first_available(pem_texts@)->0;
                    if c < k {
                    } else if c > k {
                    }
                    assert(first_available(pem_texts@) == Some(k));
                }
                return match parse_public_key_pem(text.as_str()) {
                    Some(key) => Ok((values[i], key)),
                    None => Err(CertError::InvalidKey),
                };
            },
            None => {},
        }
        i = i + 1;
    }
    Err(CertError::NotFound)
}

} // verus!
