use opus_kman::frame_length::{decode, encode, MAX_FRAME_LENGTH};
use opus_kman::Error;

#[test]
fn round_trip_all_values() {
    for v in 0..=MAX_FRAME_LENGTH {
        let bytes = encode(v);
        let expected_len = if v <= 251 { 1 } else { 2 };
        assert_eq!(bytes.len(), expected_len);
        assert_eq!(decode(&bytes, 0), Ok((v, expected_len)));
    }
}

#[test]
fn one_byte_values_encode_as_themselves() {
    assert_eq!(encode(0), vec![0]);
    assert_eq!(encode(1), vec![1]);
    assert_eq!(encode(251), vec![251]);
}

#[test]
fn two_byte_values() {
    assert_eq!(encode(252), vec![252, 0]);
    assert_eq!(encode(273), vec![253, 5]);
    assert_eq!(encode(MAX_FRAME_LENGTH), vec![255, 255]);
}

#[test]
fn marker_plus_multiplier_decodes() {
    // 253 followed by 5 is 5 * 4 + 253 = 273
    assert_eq!(decode(&[253, 5], 0), Ok((273, 2)));
    assert_eq!(decode(&[255, 255], 0), Ok((1275, 2)));
}

#[test]
fn decode_at_offset() {
    assert_eq!(decode(&[9, 42], 1), Ok((42, 1)));
    assert_eq!(decode(&[9, 253, 5], 1), Ok((273, 2)));
}

#[test]
fn decode_empty_is_truncated() {
    assert_eq!(decode(&[], 0), Err(Error::Truncated));
    assert_eq!(decode(&[7], 1), Err(Error::Truncated));
}

#[test]
fn decode_missing_second_byte_is_truncated() {
    for b0 in 252..=255u8 {
        assert_eq!(decode(&[b0], 0), Err(Error::Truncated));
    }
}
