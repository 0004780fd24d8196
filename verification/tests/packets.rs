use mtproto::packets::client_dh_inner_data::ClientDHInnerData;
use mtproto::packets::dh_gen_ok::DHGenOk;
use mtproto::packets::p_q_inner_data::PQInnerData;
use mtproto::packets::req_dh_params::ReqDHParams;
use mtproto::packets::req_pq_multi::ReqPQMulti;
use mtproto::packets::res_pq::ResPQ;
use mtproto::packets::server_dh_inner_data::ServerDHInnerData;
use mtproto::packets::server_dh_params_ok::ServerDHParamsOK;
use mtproto::packets::set_client_dh_params::SetClientDHParams;
use mtproto::reader::TLReader;
use mtproto::traits::tl_object::{Int256, TLObject};

fn read_all<T: TLObject>(bytes: &[u8]) -> (Option<T>, usize) {
    let mut reader = TLReader::new(bytes);
    let value = T::read_from(&mut reader);
    (value, reader.position())
}

fn nonce(bytes: [u8; 16]) -> i128 {
    i128::from_le_bytes(bytes)
}

fn res_pq_example() -> Vec<u8> {
    vec![
        0x63, 0x24, 0x16, 0x05, 0x3E, 0x05, 0x49, 0x82, 0x8C, 0xCA, 0x27, 0xE9, 0x66, 0xB3, 0x01,
        0xA4, 0x8F, 0xEC, 0xE2, 0xFC, 0xA5, 0xCF, 0x4D, 0x33, 0xF4, 0xA1, 0x1E, 0xA8, 0x77, 0xBA,
        0x4A, 0xA5, 0x73, 0x90, 0x73, 0x30, 0x08, 0x17, 0xED, 0x48, 0x94, 0x1A, 0x08, 0xF9, 0x81,
        0x00, 0x00, 0x00, 0x15, 0xC4, 0xB5, 0x1C, 0x01, 0x00, 0x00, 0x00, 0x21, 0x6B, 0xE8, 0x6C,
        0x02, 0x2B, 0xB4, 0xC3,
    ]
}

#[test]
fn req_pq_multi_encoding() {
    let req = ReqPQMulti { nonce: 1 };
    let mut expected = vec![0xf1, 0x8e, 0x7e, 0xbe, 1];
    expected.extend(vec![0u8; 15]);
    assert_eq!(req.to_bytes(), expected);
    let (back, n) = read_all::<ReqPQMulti>(&expected);
    assert_eq!(back.unwrap().nonce, 1);
    assert_eq!(n, 20);
}

#[test]
fn res_pq_decodes_example() {
    let bytes = res_pq_example();
    let (res, n) = read_all::<ResPQ>(&bytes);
    let res = res.unwrap();
    assert_eq!(n, bytes.len());
    assert_eq!(
        res.nonce,
        nonce([0x3E, 0x05, 0x49, 0x82, 0x8C, 0xCA, 0x27, 0xE9, 0x66, 0xB3, 0x01, 0xA4, 0x8F, 0xEC, 0xE2, 0xFC])
    );
    assert_eq!(
        res.server_nonce,
        nonce([0xA5, 0xCF, 0x4D, 0x33, 0xF4, 0xA1, 0x1E, 0xA8, 0x77, 0xBA, 0x4A, 0xA5, 0x73, 0x90, 0x73, 0x30])
    );
    assert_eq!(*res.pq, [0x17, 0xED, 0x48, 0x94, 0x1A, 0x08, 0xF9, 0x81]);
    assert_eq!(u64::from_be_bytes(*res.pq), 0x17ED48941A08F981);
    assert_eq!(res.server_public_key_fingerprints, vec![i64::from_le_bytes([0x21, 0x6B, 0xE8, 0x6C, 0x02, 0x2B, 0xB4, 0xC3])]);
    assert_eq!(res.to_bytes(), bytes);
}

#[test]
fn res_pq_rejects_other_constructor_and_truncation() {
    let mut bytes = res_pq_example();
    bytes[0] = 0x64;
    assert_eq!(read_all::<ResPQ>(&bytes).1, 0);
    assert!(read_all::<ResPQ>(&bytes).0.is_none());
    let bytes = res_pq_example();
    let (r, n) = read_all::<ResPQ>(&bytes[..bytes.len() - 1]);
    assert!(r.is_none());
    assert_eq!(n, 0);
}

#[test]
fn p_q_inner_data_roundtrip() {
    let data = PQInnerData {
        pq: Box::new([0x17, 0xED, 0x48, 0x94, 0x1A, 0x08, 0xF9, 0x81]),
        p: Box::new(0x494C553Bu32.to_be_bytes()),
        q: Box::new(0x53911073u32.to_be_bytes()),
        nonce: 5,
        server_nonce: -7,
        new_nonce: Int256::from_le_bytes([3u8; 32]),
    };
    let bytes = data.to_bytes();
    assert_eq!(&bytes[..4], &[0xec, 0x5a, 0xc9, 0x83]);
    assert_eq!(&bytes[4..16], &[8, 0x17, 0xED, 0x48, 0x94, 0x1A, 0x08, 0xF9, 0x81, 0, 0, 0]);
    assert_eq!(&bytes[16..24], &[4, 0x49, 0x4C, 0x55, 0x3B, 0, 0, 0]);
    assert_eq!(bytes.len(), 4 + 12 + 8 + 8 + 16 + 16 + 32);
    let (back, n) = read_all::<PQInnerData>(&bytes);
    let back = back.unwrap();
    assert_eq!(n, bytes.len());
    assert_eq!(*back.pq, *data.pq);
    assert_eq!(*back.p, *data.p);
    assert_eq!(*back.q, *data.q);
    assert_eq!(back.nonce, 5);
    assert_eq!(back.server_nonce, -7);
    assert_eq!(back.new_nonce.to_le_bytes(), [3u8; 32]);
}

#[test]
fn req_dh_params_encodes_and_never_decodes() {
    let req = ReqDHParams {
        nonce: 1,
        server_nonce: 2,
        p: Box::new([0, 0, 0, 3]),
        q: Box::new([0, 0, 0, 5]),
        public_key_fingerprint: -1,
        encrypted_data: Box::new([9u8; 256]),
    };
    let bytes = req.to_bytes();
    assert_eq!(&bytes[..4], &[0xbe, 0xe4, 0x12, 0xd7]);
    assert_eq!(&bytes[36..44], &[4, 0, 0, 0, 3, 0, 0, 0]);
    assert_eq!(&bytes[44..52], &[4, 0, 0, 0, 5, 0, 0, 0]);
    assert_eq!(&bytes[52..60], &[255; 8]);
    assert_eq!(&bytes[60..64], &[254, 0, 1, 0]);
    assert_eq!(bytes.len(), 64 + 256);
    assert_eq!(bytes.len() % 4, 0);
    let (r, n) = read_all::<ReqDHParams>(&bytes);
    assert!(r.is_none());
    assert_eq!(n, 0);
}

#[test]
fn server_dh_params_ok_roundtrip() {
    let msg = ServerDHParamsOK {
        nonce: 11,
        server_nonce: 12,
        encrypted_answer: vec![0xaa; 592].into_boxed_slice(),
    };
    let bytes = msg.to_bytes();
    assert_eq!(&bytes[..4], &[0x5c, 0x07, 0xe8, 0xd0]);
    let (back, n) = read_all::<ServerDHParamsOK>(&bytes);
    let back = back.unwrap();
    assert_eq!(n, bytes.len());
    assert_eq!(back.nonce, 11);
    assert_eq!(back.server_nonce, 12);
    assert_eq!(back.encrypted_answer, msg.encrypted_answer);
}

#[test]
fn server_dh_inner_data_roundtrip() {
    let msg = ServerDHInnerData {
        nonce: -1,
        server_nonce: i128::MAX,
        g: 3,
        dh_prime: vec![0xc7; 256].into_boxed_slice(),
        g_a: vec![0x12; 255].into_boxed_slice(),
        server_time: 1_700_000_000,
    };
    let bytes = msg.to_bytes();
    assert_eq!(&bytes[..4], &[0xba, 0x0d, 0x89, 0xb5]);
    assert_eq!(bytes.len() % 4, 0);
    let mut with_tail = bytes.clone();
    with_tail.extend([1, 2, 3]);
    let (back, n) = read_all::<ServerDHInnerData>(&with_tail);
    let back = back.unwrap();
    assert_eq!(n, bytes.len());
    assert_eq!(back.nonce, -1);
    assert_eq!(back.server_nonce, i128::MAX);
    assert_eq!(back.g, 3);
    assert_eq!(back.dh_prime, msg.dh_prime);
    assert_eq!(back.g_a, msg.g_a);
    assert_eq!(back.server_time, 1_700_000_000);
}

#[test]
fn client_dh_inner_data_roundtrip() {
    let msg = ClientDHInnerData {
        nonce: 1,
        server_nonce: 2,
        retry_id: 0,
        g_b: Box::new([7u8; 256]),
    };
    let bytes = msg.to_bytes();
    assert_eq!(&bytes[..4], &[0x54, 0xb6, 0x43, 0x66]);
    assert_eq!(bytes.len(), 4 + 16 + 16 + 8 + 4 + 256);
    let (back, n) = read_all::<ClientDHInnerData>(&bytes);
    let back = back.unwrap();
    assert_eq!(n, bytes.len());
    assert_eq!(back.retry_id, 0);
    assert_eq!(*back.g_b, [7u8; 256]);
}

#[test]
fn set_client_dh_params_roundtrip() {
    let msg = SetClientDHParams {
        nonce: 3,
        server_nonce: 4,
        encrypted_data: vec![1u8; 336].into_boxed_slice(),
    };
    let bytes = msg.to_bytes();
    assert_eq!(&bytes[..4], &[0x1f, 0x5f, 0x04, 0xf5]);
    let (back, n) = read_all::<SetClientDHParams>(&bytes);
    let back = back.unwrap();
    assert_eq!(n, bytes.len());
    assert_eq!(back.encrypted_data, msg.encrypted_data);
}

#[test]
fn dh_gen_ok_roundtrip() {
    let msg = DHGenOk { nonce: 1, server_nonce: 2, new_nonce_hash1: -3 };
    let bytes = msg.to_bytes();
    assert_eq!(&bytes[..4], &[0x34, 0xf7, 0xcb, 0x3b]);
    assert_eq!(bytes.len(), 52);
    let (back, n) = read_all::<DHGenOk>(&bytes);
    let back = back.unwrap();
    assert_eq!(n, 52);
    assert_eq!((back.nonce, back.server_nonce, back.new_nonce_hash1), (1, 2, -3));
    // one byte short: nothing read
    assert_eq!(read_all::<DHGenOk>(&bytes[..51]).1, 0);
}
