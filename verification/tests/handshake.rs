use mtproto::handshake::{
    build_client_dh_inner_data, build_p_q_inner_data, build_req_dh_params,
    build_set_client_dh_params, check_dh_params, check_server_dh_inner_hash, compute_auth_key, compute_g_b, data_with_hash,
    dh_padding_len, nonces_match, rsa_padding_len, server_salt, tmp_aes_key_iv,
    CURRENT_DH_PRIME_BYTES,
};
use mtproto::packets::server_dh_inner_data::ServerDHInnerData;
use mtproto::traits::tl_object::{Int256, TLObject};
use mtproto::utils::sha1_digest;

fn exponent_b() -> [u8; 256] {
    core::array::from_fn(|i| ((i * 7 + 3) % 256) as u8)
}

fn g_a_bytes() -> Vec<u8> {
    vec![15, 157, 255, 133, 181, 29, 170, 45, 86, 70, 7, 2, 34, 140, 212, 164, 61, 69, 4, 173, 70, 139, 112, 53, 128, 177, 101, 174, 104, 252, 213, 37, 215, 117, 2, 157, 50, 113, 70, 141, 244, 244, 123, 146, 215, 189, 217, 125, 61, 185, 143, 66, 223, 142, 28, 119, 8, 36, 77, 105, 113, 0, 144, 93, 9, 28, 181, 142, 29, 185, 19, 194, 67, 39, 105, 145, 250, 231, 86, 129, 234, 119, 169, 187, 164, 106, 54, 208, 202, 161, 104, 19, 238, 80, 101, 42, 220, 226, 250, 139, 41, 115, 60, 2, 93, 225, 112, 34, 187, 182, 21, 23, 129, 64, 76, 247, 46, 58, 193, 207, 61, 165, 198, 172, 217, 133, 67, 122, 49, 226, 151, 56, 24, 162, 110, 198, 49, 25, 210, 164, 57, 71, 65, 27, 118, 199, 146, 158, 106, 66, 243, 176, 139, 15, 218, 85, 117, 246, 76, 86, 17, 212, 70, 176, 21, 127, 213, 184, 205, 142, 129, 149, 231, 240, 145, 194, 10, 107, 8, 157, 47, 89, 187, 221, 74, 142, 57, 74, 247, 38, 56, 7, 138, 177, 127, 99, 2, 0, 224, 181, 76, 241, 58, 172, 238, 225, 146, 80, 105, 134, 140, 48, 242, 169, 147, 149, 230, 234, 194, 171, 46, 211, 74, 172, 23, 188, 164, 125, 240, 140, 96, 223, 61, 245, 10, 61, 91, 216, 29, 125, 197, 69, 50, 145, 168, 189, 60, 27, 154, 248, 136, 119, 187, 106, 241, 204]
}

#[test]
fn tmp_aes_key_and_iv() {
    let new_nonce = Int256::from_le_bytes(core::array::from_fn(|i| (i + 1) as u8));
    let server_nonce: i128 = 0x0123456789abcdef0011223344556677;
    let (key, iv) = tmp_aes_key_iv(&new_nonce, server_nonce);
    assert_eq!(key, [116, 63, 70, 149, 186, 86, 0, 184, 180, 79, 47, 30, 170, 214, 171, 22, 22, 56, 171, 66, 250, 200, 204, 247, 215, 89, 88, 195, 227, 143, 237, 146]);
    assert_eq!(iv, [227, 214, 84, 66, 74, 99, 25, 119, 125, 7, 76, 189, 54, 247, 49, 178, 55, 18, 11, 238, 238, 150, 217, 206, 56, 154, 208, 58, 1, 2, 3, 4]);
    assert_eq!(server_salt(&new_nonce, server_nonce), vec![118, 100, 86, 64, 54, 36, 22, 8]);
}

#[test]
fn hashed_payload_layout() {
    let data = [1u8, 2, 3];
    let padding = [0u8; 5];
    let r = data_with_hash(&data, &padding);
    assert_eq!(r.len(), 28);
    assert_eq!(&r[..20], &sha1_digest(&data)[..]);
    assert_eq!(&r[20..23], &data);
    assert_eq!(&r[23..], &padding);
}

#[test]
fn padding_lengths() {
    assert_eq!(rsa_padding_len(96), 139);
    assert_eq!(rsa_padding_len(235), 0);
    assert_eq!(dh_padding_len(300), 0);
    assert_eq!(dh_padding_len(301), 15);
    assert_eq!(dh_padding_len(0), 12);
}

#[test]
fn g_b_and_auth_key() {
    let b = exponent_b();
    let g_b = compute_g_b(3, &b, &CURRENT_DH_PRIME_BYTES).unwrap();
    assert_eq!(g_b.to_vec(), vec![173, 147, 32, 242, 221, 189, 57, 216, 248, 249, 107, 239, 86, 202, 250, 71, 104, 254, 27, 161, 197, 157, 24, 81, 107, 115, 60, 127, 232, 52, 152, 46, 192, 202, 40, 141, 234, 228, 145, 248, 69, 187, 77, 57, 240, 185, 199, 189, 121, 100, 158, 231, 117, 144, 63, 174, 4, 40, 176, 115, 199, 80, 3, 119, 68, 167, 99, 64, 112, 151, 149, 126, 188, 0, 198, 58, 177, 195, 16, 23, 192, 223, 76, 22, 119, 200, 9, 1, 48, 194, 72, 84, 197, 127, 152, 78, 108, 173, 135, 36, 135, 21, 196, 55, 190, 203, 248, 23, 233, 214, 192, 95, 224, 209, 77, 107, 129, 123, 234, 233, 146, 228, 144, 220, 154, 79, 86, 142, 27, 148, 194, 121, 85, 154, 156, 127, 147, 179, 168, 26, 64, 119, 211, 10, 17, 96, 166, 76, 196, 240, 113, 123, 185, 156, 210, 114, 82, 115, 211, 131, 2, 62, 99, 195, 43, 152, 182, 209, 207, 112, 197, 222, 5, 117, 132, 22, 39, 242, 178, 106, 216, 186, 63, 115, 97, 187, 14, 166, 130, 142, 147, 9, 228, 18, 135, 40, 93, 113, 98, 52, 81, 151, 255, 37, 21, 249, 201, 69, 21, 0, 138, 167, 82, 162, 86, 103, 126, 219, 152, 245, 101, 183, 184, 96, 2, 63, 209, 79, 243, 252, 156, 61, 157, 153, 232, 153, 109, 4, 192, 161, 72, 125, 160, 238, 40, 112, 201, 13, 244, 248, 124, 85, 170, 196, 221, 49]);
    let key = compute_auth_key(&g_a_bytes(), &b, &CURRENT_DH_PRIME_BYTES).unwrap();
    assert_eq!(key, vec![3, 149, 167, 149, 8, 187, 224, 127, 160, 200, 147, 52, 191, 160, 224, 182, 91, 110, 29, 231, 194, 68, 200, 158, 241, 73, 230, 202, 38, 229, 50, 77, 159, 146, 146, 80, 32, 153, 46, 190, 225, 245, 136, 148, 121, 173, 6, 204, 104, 235, 27, 101, 250, 111, 135, 192, 220, 136, 207, 81, 64, 128, 215, 9, 108, 218, 135, 186, 145, 71, 76, 24, 113, 132, 252, 206, 17, 200, 52, 255, 111, 186, 232, 87, 177, 194, 162, 200, 131, 7, 228, 178, 164, 228, 228, 159, 67, 18, 121, 245, 97, 70, 4, 242, 1, 33, 132, 97, 45, 89, 55, 10, 187, 37, 60, 76, 167, 125, 202, 34, 177, 41, 30, 174, 92, 2, 43, 83, 47, 37, 10, 188, 210, 126, 4, 227, 160, 84, 73, 175, 120, 145, 23, 204, 52, 101, 27, 156, 24, 55, 19, 134, 132, 115, 100, 212, 211, 53, 174, 226, 182, 109, 144, 121, 71, 227, 220, 215, 6, 54, 95, 54, 76, 140, 124, 41, 188, 24, 244, 190, 114, 175, 18, 222, 122, 12, 252, 213, 119, 25, 67, 148, 118, 225, 59, 110, 35, 197, 235, 87, 241, 59, 46, 96, 158, 64, 241, 158, 189, 45, 77, 59, 38, 187, 148, 50, 117, 47, 240, 103, 54, 167, 199, 167, 140, 183, 22, 209, 182, 21, 70, 63, 211, 226, 166, 41, 140, 0, 65, 55, 145, 6, 209, 23, 136, 217, 236, 2, 45, 51, 192, 35, 4, 91, 74, 247]);
    assert!(compute_g_b(3, &b, &[0, 0]).is_none());
    assert!(compute_auth_key(&g_a_bytes(), &b, &[]).is_none());
    // a result with fewer than 256 bytes
    assert!(compute_g_b(2, &[0u8; 256], &CURRENT_DH_PRIME_BYTES).is_none());
}

#[test]
fn dh_params_checks() {
    let g_b = compute_g_b(3, &exponent_b(), &CURRENT_DH_PRIME_BYTES).unwrap();
    let g_a = g_a_bytes();
    assert!(check_dh_params(&CURRENT_DH_PRIME_BYTES, 3, &g_a, &g_b));
    // another prime
    let mut other = CURRENT_DH_PRIME_BYTES;
    other[255] = 93;
    assert!(!check_dh_params(&other, 3, &g_a, &g_b));
    // the same prime with a leading zero byte is the same number
    let mut padded = vec![0u8];
    padded.extend_from_slice(&CURRENT_DH_PRIME_BYTES);
    assert!(check_dh_params(&padded, 3, &g_a, &g_b));
    // bad generators
    assert!(!check_dh_params(&CURRENT_DH_PRIME_BYTES, 1, &g_a, &g_b));
    assert!(!check_dh_params(&CURRENT_DH_PRIME_BYTES, -5, &g_a, &g_b));
    // g_a too small
    assert!(!check_dh_params(&CURRENT_DH_PRIME_BYTES, 3, &[2], &g_b));
    // g_b equal to the prime minus one
    let mut p_minus_1 = CURRENT_DH_PRIME_BYTES;
    p_minus_1[255] -= 1;
    assert!(!check_dh_params(&CURRENT_DH_PRIME_BYTES, 3, &g_a, &p_minus_1));
}

#[test]
fn server_inner_hash_check() {
    let inner = ServerDHInnerData {
        nonce: 1,
        server_nonce: 2,
        g: 3,
        dh_prime: CURRENT_DH_PRIME_BYTES.to_vec().into_boxed_slice(),
        g_a: g_a_bytes().into_boxed_slice(),
        server_time: 5,
    };
    let mut decrypted = sha1_digest(&inner.to_bytes()).to_vec();
    decrypted.extend(inner.to_bytes());
    assert!(check_server_dh_inner_hash(&decrypted, &inner));
    decrypted[3] ^= 1;
    assert!(!check_server_dh_inner_hash(&decrypted, &inner));
}

#[test]
fn echoed_nonces() {
    assert!(nonces_match(1, 2, 1, 1, 2, 1));
    assert!(!nonces_match(1, 2, 1, 1, 3, 1));
    assert!(!nonces_match(1, 2, 0, 1, 2, 1));
    assert!(!nonces_match(1, 2, 1, 1, 2, 9));
}

#[test]
fn handshake_messages_are_assembled_field_by_field() {
    let pq = Box::new([0x17u8, 0xED, 0x48, 0x94, 0x1A, 0x08, 0xF9, 0x81]);
    let new_nonce = Int256::from_le_bytes([5u8; 32]);
    let inner = build_p_q_inner_data(&pq, 0x494C553B, 0x53911073, 1, 2, new_nonce);
    assert_eq!(*inner.pq, *pq);
    assert_eq!(*inner.p, [0x49, 0x4C, 0x55, 0x3B]);
    assert_eq!(*inner.q, [0x53, 0x91, 0x10, 0x73]);
    assert_eq!((inner.nonce, inner.server_nonce), (1, 2));
    assert_eq!(inner.new_nonce.to_le_bytes(), [5u8; 32]);
    let req = build_req_dh_params(1, 2, 0x494C553B, 0x53911073, -9, Box::new([4u8; 256]));
    assert_eq!(*req.p, [0x49, 0x4C, 0x55, 0x3B]);
    assert_eq!(*req.q, [0x53, 0x91, 0x10, 0x73]);
    assert_eq!(req.public_key_fingerprint, -9);
    assert_eq!(*req.encrypted_data, [4u8; 256]);
    let client = build_client_dh_inner_data(1, 2, [8u8; 256]);
    assert_eq!(client.retry_id, 0);
    assert_eq!(*client.g_b, [8u8; 256]);
    let set = build_set_client_dh_params(1, 2, vec![6u8; 32]);
    assert_eq!(&set.encrypted_data[..], &[6u8; 32][..]);
    assert_eq!((set.nonce, set.server_nonce), (1, 2));
}
