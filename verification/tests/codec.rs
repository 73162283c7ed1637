use fleetos_guest_init::codec::WireFormat;
use fleetos_guest_init::wire::WireError;

fn encoded<T: WireFormat>(v: &T) -> Vec<u8> {
    let mut out = Vec::new();
    v.encode(&mut out);
    out
}

#[test]
fn u32_varint_boundaries_match_postcard() {
    for v in [0u32, 1, 127, 128, 255, 16383, 16384, 0x1F_FFFF, 0x20_0000, u32::MAX] {
        let ours = encoded(&v);
        assert_eq!(ours, postcard::to_allocvec(&v).unwrap(), "value {}", v);
        let (back, end) = u32::decode(&ours, 0).unwrap();
        assert_eq!(back, v);
        assert_eq!(end, ours.len());
    }
    assert_eq!(encoded(&128u32), vec![0x80, 0x01]);
    assert_eq!(encoded(&u32::MAX), vec![0xFF, 0xFF, 0xFF, 0xFF, 0x0F]);
}

#[test]
fn nested_vectors_round_trip_at_an_offset() {
    let v: Vec<Vec<u8>> = vec![vec![], vec![1], (0..300u32).map(|i| i as u8).collect()];
    let mut buf = vec![0xEE, 0xEE];
    v.encode(&mut buf);
    buf.push(0xEE);
    let (back, end) = Vec::<Vec<u8>>::decode(&buf, 2).unwrap();
    assert_eq!(back, v);
    assert_eq!(end, buf.len() - 1);
    assert_eq!(&buf[2..end], &postcard::to_allocvec(&v).unwrap()[..]);
}

#[test]
fn strings_and_pairs_round_trip() {
    let v: Vec<(String, String)> =
        vec![("".to_string(), "ünïcødé ✓".to_string()), ("K".to_string(), "v".to_string())];
    let bytes = encoded(&v);
    assert_eq!(bytes, postcard::to_allocvec(&v).unwrap());
    let (back, end) = Vec::<(String, String)>::decode(&bytes, 0).unwrap();
    assert_eq!(back, v);
    assert_eq!(end, bytes.len());
}

#[test]
fn bools_and_bytes() {
    assert_eq!(encoded(&true), vec![1]);
    assert_eq!(encoded(&false), vec![0]);
    assert_eq!(bool::decode(&[3], 0).unwrap_err(), WireError::BadBool);
    assert_eq!(u8::decode(&[], 0).unwrap_err(), WireError::UnexpectedEnd);
    assert_eq!(<[u8; 4]>::decode(&[1, 2, 3], 0).unwrap_err(), WireError::UnexpectedEnd);
    assert_eq!(<[u8; 4]>::decode(&[9, 1, 2, 3, 4], 1).unwrap(), ([1, 2, 3, 4], 5));
}

#[test]
fn long_length_varint_is_refused() {
    // Ten bytes whose last carries more than the single bit left of a u64.
    let bytes = [0xFF, 0xFF, 0xFF, 0xFF, 0xFF, 0xFF, 0xFF, 0xFF, 0xFF, 0x02];
    assert_eq!(String::decode(&bytes, 0).unwrap_err(), WireError::BadVarint);
    assert_eq!(
        postcard::from_bytes::<String>(&bytes).unwrap_err().to_string(),
        WireError::BadVarint.message()
    );
}

#[test]
fn error_messages() {
    assert_eq!(WireError::UnexpectedEnd.message(), "Hit the end of buffer, expected more data");
    assert_eq!(WireError::BadBool.message(), "Found a bool that wasn't 0 or 1");
    assert_eq!(WireError::BadUtf8.message(), "Tried to parse invalid utf-8");
}
