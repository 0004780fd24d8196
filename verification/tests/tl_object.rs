use mtproto::reader::TLReader;
use mtproto::traits::tl_object::{Int256, TLObject};

fn read_all<T: TLObject>(bytes: &[u8]) -> (Option<T>, usize) {
    let mut reader = TLReader::new(bytes);
    let value = T::read_from(&mut reader);
    (value, reader.position())
}

#[test]
fn int_encodings_are_little_endian_twos_complement() {
    assert_eq!((-1i32).to_bytes(), vec![255, 255, 255, 255]);
    assert_eq!(0x01020304i32.to_bytes(), vec![4, 3, 2, 1]);
    assert_eq!(0xbe7e8ef1u32.to_bytes(), vec![0xf1, 0x8e, 0x7e, 0xbe]);
    assert_eq!((-2i64).to_bytes(), vec![254, 255, 255, 255, 255, 255, 255, 255]);
    assert_eq!(i128::MIN.to_bytes(), {
        let mut v = vec![0u8; 15];
        v.push(0x80);
        v
    });
    assert_eq!(1i128.to_bytes(), {
        let mut v = vec![1u8];
        v.extend(vec![0u8; 15]);
        v
    });
}

#[test]
fn ints_read_back() {
    for x in [0i32, 1, -1, i32::MIN, i32::MAX, 123456789] {
        assert_eq!(read_all::<i32>(&x.to_bytes()), (Some(x), 4));
    }
    for x in [0u32, u32::MAX, 0x1cb5c415] {
        assert_eq!(read_all::<u32>(&x.to_bytes()), (Some(x), 4));
    }
    for x in [0i64, -1, i64::MIN, i64::MAX, 0x216BE86C022BB4C3] {
        assert_eq!(read_all::<i64>(&x.to_bytes()), (Some(x), 8));
    }
    for x in [0i128, -1, i128::MIN, i128::MAX, 0x3E0549828CCA27E966B301A48FECE2FC] {
        assert_eq!(read_all::<i128>(&x.to_bytes()), (Some(x), 16));
    }
}

#[test]
fn short_input_reads_nothing() {
    assert_eq!(read_all::<i32>(&[1, 2, 3]), (None, 0));
    assert_eq!(read_all::<i64>(&[1, 2, 3, 4, 5, 6, 7]), (None, 0));
    assert_eq!(read_all::<i128>(&[]), (None, 0));
}

#[test]
fn reads_consume_in_order() {
    let mut bytes = 7i32.to_bytes();
    bytes.extend(9i64.to_bytes());
    let mut reader = TLReader::new(&bytes);
    assert_eq!(i32::read_from(&mut reader), Some(7));
    assert_eq!(reader.position(), 4);
    assert_eq!(i64::read_from(&mut reader), Some(9));
    assert_eq!(reader.position(), 12);
    assert_eq!(reader.remaining(), 0);
}

#[test]
fn vector_of_longs_encoding() {
    let v: Vec<i64> = vec![1, -1];
    let bytes = v.to_bytes();
    let mut expected = vec![21, 196, 181, 28, 2, 0, 0, 0];
    expected.extend(1i64.to_bytes());
    expected.extend((-1i64).to_bytes());
    assert_eq!(bytes, expected);
    assert_eq!(read_all::<Vec<i64>>(&bytes), (Some(v), 24));
    let empty: Vec<i64> = Vec::new();
    assert_eq!(empty.to_bytes(), vec![21, 196, 181, 28, 0, 0, 0, 0]);
    assert_eq!(read_all::<Vec<i64>>(&empty.to_bytes()), (Some(empty), 8));
}

#[test]
fn vector_with_wrong_constructor_or_missing_items_is_rejected() {
    assert_eq!(read_all::<Vec<i64>>(&[1, 2, 3, 4, 0, 0, 0, 0]), (None, 0));
    // announces two items but holds one
    let mut bytes = vec![21, 196, 181, 28, 2, 0, 0, 0];
    bytes.extend(5i64.to_bytes());
    assert_eq!(read_all::<Vec<i64>>(&bytes), (None, 0));
    assert_eq!(read_all::<Vec<i64>>(&[21, 196, 181, 28, 1]), (None, 0));
}

#[test]
fn short_bytes_encoding_is_padded() {
    let b: Box<[u8]> = vec![1, 2, 3].into_boxed_slice();
    assert_eq!(b.to_bytes(), vec![3, 1, 2, 3]);
    let b: Box<[u8]> = vec![9; 4].into_boxed_slice();
    assert_eq!(b.to_bytes(), vec![4, 9, 9, 9, 9, 0, 0, 0]);
    let empty: Box<[u8]> = Vec::new().into_boxed_slice();
    assert_eq!(empty.to_bytes(), vec![0, 0, 0, 0]);
    assert_eq!(read_all::<Box<[u8]>>(&[3, 1, 2, 3]), (Some(vec![1u8, 2, 3].into_boxed_slice()), 4));
}

#[test]
fn long_bytes_encoding_uses_three_length_bytes() {
    let data: Vec<u8> = (0..300u32).map(|i| i as u8).collect();
    let b: Box<[u8]> = data.clone().into_boxed_slice();
    let enc = b.to_bytes();
    assert_eq!(&enc[..4], &[254, 44, 1, 0]);
    assert_eq!(&enc[4..304], &data[..]);
    assert_eq!(enc.len(), 304);
    assert_eq!(read_all::<Box<[u8]>>(&enc), (Some(b), 304));
    let data: Vec<u8> = vec![5; 254];
    let enc = data.clone().into_boxed_slice().to_bytes();
    assert_eq!(enc.len(), 260);
    assert_eq!(&enc[..4], &[254, 254, 0, 0]);
    assert_eq!(&enc[258..], &[0, 0]);
}

#[test]
fn bytes_encodings_are_whole_words() {
    for len in 0..600usize {
        let b: Box<[u8]> = vec![1u8; len].into_boxed_slice();
        let enc = b.to_bytes();
        assert_eq!(enc.len() % 4, 0);
        assert_eq!(read_all::<Box<[u8]>>(&enc), (Some(b), enc.len()));
    }
}

#[test]
fn truncated_bytes_read_as_zeros() {
    // announces five bytes, holds two: the rest read as zeros
    assert_eq!(read_all::<Box<[u8]>>(&[5, 7, 8]), (Some(vec![7u8, 8, 0, 0, 0].into_boxed_slice()), 3));
    assert_eq!(read_all::<Box<[u8]>>(&[]), (None, 0));
}

#[test]
fn fixed_size_bytes() {
    let b: Box<[u8; 8]> = Box::new([0x17, 0xED, 0x48, 0x94, 0x1A, 0x08, 0xF9, 0x81]);
    let enc = b.to_bytes();
    assert_eq!(enc, vec![8, 0x17, 0xED, 0x48, 0x94, 0x1A, 0x08, 0xF9, 0x81, 0, 0, 0]);
    assert_eq!(read_all::<Box<[u8; 8]>>(&enc), (Some(b), 12));
    // a string of another length is no [u8; 4]
    assert_eq!(read_all::<Box<[u8; 4]>>(&enc), (None, 0));
}

#[test]
fn int256_bytes() {
    let mut be = [0u8; 32];
    for i in 0..32 {
        be[i] = i as u8;
    }
    let x = Int256::from_be_bytes(be);
    let le = x.to_le_bytes();
    for i in 0..32 {
        assert_eq!(le[i], (31 - i) as u8);
    }
    assert_eq!(x.to_bytes(), le.to_vec());
    let (back, n) = read_all::<Int256>(&x.to_bytes());
    assert_eq!(back.unwrap().to_le_bytes(), le);
    assert_eq!(n, 32);
    assert!(read_all::<Int256>(&[0u8; 31]).0.is_none());
    assert_eq!(Int256::from_le_bytes(le).to_le_bytes(), le);
}

#[test]
fn length_marker_255_reads_like_254_with_one_byte_of_padding_allowance() {
    // 255 also announces a three-byte length; its padding is computed from
    // the length plus one
    let bytes = [255u8, 2, 0, 0, 0xaa, 0xbb, 0, 9, 9];
    assert_eq!(
        read_all::<Box<[u8]>>(&bytes),
        (Some(vec![0xaau8, 0xbb].into_boxed_slice()), 7)
    );
    let bytes = [254u8, 2, 0, 0, 0xaa, 0xbb, 0, 0, 9];
    assert_eq!(
        read_all::<Box<[u8]>>(&bytes),
        (Some(vec![0xaau8, 0xbb].into_boxed_slice()), 8)
    );
}

#[test]
fn cut_length_header_reads_as_zeros() {
    // the marker 254 with one length byte: the missing length bytes read as zeros
    assert_eq!(read_all::<Box<[u8]>>(&[254u8, 1]), (Some(vec![0u8].into_boxed_slice()), 2));
}
