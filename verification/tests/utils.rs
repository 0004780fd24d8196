use mtproto::utils::{
    aes256_ige_decrypt, aes256_ige_encrypt, calculate_padding_bytes, find_cert, prime_decompose,
    rsa_encrypt, sha1_digest, xor, CertError,
};

const TEST_KEY_PEM: &str = "-----BEGIN PUBLIC KEY-----\nMIIBIjANBgkqhkiG9w0BAQEFAAOCAQ8AMIIBCgKCAQEAwGdJhpkys+/YZ299w2u4\nSRE1v78svRXqkw2snPhBdcxAmyCadlBH9etFKxLMlg/YPKlAbhWu+UwWfnXtGx4q\n8JzqV6HO+n8jsdGBUr/BcTDAAmqGNblZAxnNq0uji15BVY44bZZT3FYVuVjKGAHf\n8Zk7B7+FQtPU3AGolLqkxspzVd2RE/L2eJEBlztBJZgHq4GeHA6CGCJ8O7IeT4Q3\n73L89DlJUOHfo3z3swZBUQLnCNm54Nc5QdbUqgRJQKWker+5LnYFnckOHDl3iZxh\nZA/o2XWZ/aTxw5rJ+19Aj+DHJsM4J5xCK6xBrbuJSU735vpEiDeSWyJUiL0b6R/e\n8QIDAQAB\n-----END PUBLIC KEY-----\n";

const TEST_MODULUS: [u8; 256] = [192, 103, 73, 134, 153, 50, 179, 239, 216, 103, 111, 125, 195, 107, 184, 73, 17, 53, 191, 191, 44, 189, 21, 234, 147, 13, 172, 156, 248, 65, 117, 204, 64, 155, 32, 154, 118, 80, 71, 245, 235, 69, 43, 18, 204, 150, 15, 216, 60, 169, 64, 110, 21, 174, 249, 76, 22, 126, 117, 237, 27, 30, 42, 240, 156, 234, 87, 161, 206, 250, 127, 35, 177, 209, 129, 82, 191, 193, 113, 48, 192, 2, 106, 134, 53, 185, 89, 3, 25, 205, 171, 75, 163, 139, 94, 65, 85, 142, 56, 109, 150, 83, 220, 86, 21, 185, 88, 202, 24, 1, 223, 241, 153, 59, 7, 191, 133, 66, 211, 212, 220, 1, 168, 148, 186, 164, 198, 202, 115, 85, 221, 145, 19, 242, 246, 120, 145, 1, 151, 59, 65, 37, 152, 7, 171, 129, 158, 28, 14, 130, 24, 34, 124, 59, 178, 30, 79, 132, 55, 239, 114, 252, 244, 57, 73, 80, 225, 223, 163, 124, 247, 179, 6, 65, 81, 2, 231, 8, 217, 185, 224, 215, 57, 65, 214, 212, 170, 4, 73, 64, 165, 164, 122, 191, 185, 46, 118, 5, 157, 201, 14, 28, 57, 119, 137, 156, 97, 100, 15, 232, 217, 117, 153, 253, 164, 241, 195, 154, 201, 251, 95, 64, 143, 224, 199, 38, 195, 56, 39, 156, 66, 43, 172, 65, 173, 187, 137, 73, 78, 247, 230, 250, 68, 136, 55, 146, 91, 34, 84, 136, 189, 27, 233, 31, 222, 241];

#[test]
fn padding_to_alignment() {
    assert_eq!(calculate_padding_bytes(0, 4), 0);
    assert_eq!(calculate_padding_bytes(1, 4), 3);
    assert_eq!(calculate_padding_bytes(4, 4), 0);
    assert_eq!(calculate_padding_bytes(5, 4), 3);
    assert_eq!(calculate_padding_bytes(7, 4), 1);
    assert_eq!(calculate_padding_bytes(20 + 300, 16), 0);
    assert_eq!(calculate_padding_bytes(20 + 301, 16), 15);
}

#[test]
fn xor_is_bytewise_and_undoes_itself() {
    let a = [0xffu8, 0x0f, 0xa5, 1];
    let b = [0x0fu8, 0x0f, 0x5a, 3];
    let x = xor(&a, &b);
    assert_eq!(x, vec![0xf0, 0x00, 0xff, 2]);
    assert_eq!(xor(&x, &b), a.to_vec());
    assert_eq!(xor(&a, &b[..2]), vec![0xf0, 0x00]);
}

#[test]
fn sha1_of_abc() {
    assert_eq!(*sha1_digest(b"abc"), [169, 153, 62, 54, 71, 6, 129, 106, 186, 62, 37, 113, 120, 80, 194, 108, 156, 208, 216, 157]);
    assert_eq!(sha1_digest(b"").len(), 20);
}

#[test]
fn aes_ige_matches_reference_and_roundtrips() {
    let key: [u8; 32] = core::array::from_fn(|i| i as u8);
    let iv: [u8; 32] = core::array::from_fn(|i| (100 + i) as u8);
    let plaintext: Vec<u8> = (200..232u32).map(|i| i as u8).collect();
    let ciphertext = aes256_ige_encrypt(&plaintext, &key, &iv);
    assert_eq!(ciphertext, vec![206, 236, 97, 61, 134, 119, 96, 88, 149, 1, 181, 246, 252, 135, 242, 116, 47, 189, 193, 157, 237, 230, 220, 232, 244, 98, 80, 235, 91, 231, 176, 211]);
    assert_ne!(ciphertext, plaintext);
    assert_eq!(aes256_ige_decrypt(&ciphertext, &key, &iv), plaintext);
    let empty: Vec<u8> = Vec::new();
    assert_eq!(aes256_ige_encrypt(&empty, &key, &iv), empty);
}

#[test]
fn rsa_encrypt_with_a_2048_bit_key() {
    let payload = [7u8; 255];
    let e = [1u8, 0, 1];
    let c = rsa_encrypt(&payload, &TEST_MODULUS, &e).expect("the ciphertext has 256 bytes");
    assert_eq!(c.to_vec(), vec![67, 243, 229, 202, 110, 110, 205, 135, 205, 169, 66, 2, 190, 214, 158, 7, 121, 51, 66, 187, 30, 198, 243, 96, 156, 34, 197, 220, 245, 80, 40, 96, 112, 14, 245, 168, 83, 41, 73, 130, 211, 163, 162, 236, 104, 121, 79, 144, 204, 180, 13, 125, 128, 207, 106, 128, 113, 243, 140, 31, 80, 105, 17, 181, 167, 43, 158, 95, 41, 235, 140, 151, 54, 227, 226, 147, 118, 57, 192, 98, 193, 8, 210, 41, 63, 228, 140, 219, 212, 145, 228, 171, 84, 159, 50, 52, 137, 195, 100, 249, 127, 154, 158, 176, 47, 122, 248, 60, 52, 67, 229, 253, 152, 6, 223, 122, 148, 22, 83, 240, 10, 102, 209, 48, 2, 231, 18, 241, 122, 1, 65, 191, 1, 17, 93, 135, 108, 168, 55, 203, 125, 186, 48, 85, 63, 127, 28, 35, 85, 34, 225, 8, 53, 82, 27, 126, 133, 179, 132, 116, 89, 156, 253, 64, 227, 59, 248, 167, 205, 101, 114, 142, 12, 32, 11, 119, 106, 19, 160, 190, 48, 221, 180, 16, 113, 176, 47, 163, 204, 126, 224, 201, 199, 142, 203, 220, 135, 16, 127, 71, 116, 113, 53, 67, 231, 143, 43, 218, 125, 100, 206, 211, 1, 127, 46, 217, 221, 166, 119, 18, 199, 13, 59, 190, 233, 139, 135, 77, 102, 149, 167, 46, 166, 19, 183, 107, 239, 19, 148, 82, 158, 7, 21, 213, 227, 183, 8, 24, 79, 239, 228, 170, 45, 13, 79, 74]);
}

#[test]
fn rsa_encrypt_without_a_256_byte_result() {
    assert!(rsa_encrypt(&[2], &[0, 0], &[1, 0, 1]).is_none());
    assert!(rsa_encrypt(&[2], &[13], &[3]).is_none());
    assert!(rsa_encrypt(&[2], &[1], &[3]).is_none());
}

#[test]
fn prime_decompose_of_documented_pq() {
    assert_eq!(prime_decompose(0x17ED48941A08F981), Some((0x494C553B, 0x53911073)));
    assert_eq!(prime_decompose(15), Some((3, 5)));
    assert_eq!(prime_decompose(8), Some((2, 2)));
    assert_eq!(prime_decompose(13), None);
    assert_eq!(prime_decompose(1), None);
    assert_eq!(prime_decompose(0), None);
}

#[test]
fn prime_decompose_of_a_product_of_two_primes_gives_them_in_order() {
    assert_eq!(prime_decompose(77), Some((7, 11)));
    assert_eq!(prime_decompose(11 * 7), Some((7, 11)));
    assert_eq!(prime_decompose(49), Some((7, 7)));
    assert_eq!(prime_decompose(65537 * 65521), Some((65521, 65537)));
}

#[test]
fn find_cert_picks_the_first_available_key() {
    let values = vec![10i64, 20, 30];
    let texts = vec![None, Some(TEST_KEY_PEM.to_string()), Some(String::from("junk"))];
    let (fp, key) = find_cert(&values, &texts).unwrap();
    assert_eq!(fp, 20);
    assert_eq!(key.n, TEST_MODULUS.to_vec());
    assert_eq!(key.e, vec![1, 0, 1]);
}

#[test]
fn find_cert_errors() {
    let values = vec![10i64, 20];
    assert_eq!(find_cert(&values, &vec![None, None]).err(), Some(CertError::NotFound));
    assert_eq!(find_cert(&vec![], &vec![]).err(), Some(CertError::NotFound));
    let texts = vec![Some(String::from("not a key")), Some(TEST_KEY_PEM.to_string())];
    assert_eq!(find_cert(&values, &texts).err(), Some(CertError::InvalidKey));
}
