use opus_kman::frame_packing::FramePacking;
use opus_kman::packet::{Frame, Packet};
use opus_kman::toc::{mode_bandwidth, Bandwidth, Mode};
use opus_kman::Error;

fn expected_pair(config: u8) -> (Mode, Bandwidth) {
    match config {
        0..=3 => (Mode::SILK, Bandwidth::NB),
        4..=7 => (Mode::SILK, Bandwidth::MB),
        8..=11 => (Mode::SILK, Bandwidth::WB),
        12..=13 => (Mode::Hybrid, Bandwidth::SWB),
        14..=15 => (Mode::Hybrid, Bandwidth::FB),
        16..=19 => (Mode::CELT, Bandwidth::NB),
        20..=23 => (Mode::CELT, Bandwidth::WB),
        24..=27 => (Mode::CELT, Bandwidth::SWB),
        _ => (Mode::CELT, Bandwidth::FB),
    }
}

#[test]
fn toc_table_is_complete() {
    for config in 0..32u8 {
        assert_eq!(mode_bandwidth(config), expected_pair(config));
    }
}

#[test]
fn parse_one_frame() {
    // config 0, mono, packing code 0; length byte 10; 10 payload bytes
    let mut buffer = vec![0b0000_0000u8, 10];
    buffer.extend(std::iter::repeat(0xAB).take(10));
    let p = Packet::parse(&buffer).unwrap();
    assert_eq!(p.mode, Mode::SILK);
    assert_eq!(p.bandwidth, Bandwidth::NB);
    assert!(!p.stereo);
    assert_eq!(p.frame_packing, FramePacking::OneFrame(10));
    assert_eq!(p.frames, vec![Frame { offset: 2, len: 10 }]);
}

#[test]
fn parse_two_frames_equal_size() {
    // config 31 (CELT/FB), mono, packing code 1; length byte 20; 20 payload bytes
    let mut buffer = vec![0b1111_1001u8, 20];
    buffer.extend(std::iter::repeat(0xCD).take(20));
    let p = Packet::parse(&buffer).unwrap();
    assert_eq!(p.mode, Mode::CELT);
    assert_eq!(p.bandwidth, Bandwidth::FB);
    assert!(!p.stereo);
    assert_eq!(p.frame_packing, FramePacking::TwoFramesEqualSize(20));
    assert_eq!(
        p.frames,
        vec![Frame { offset: 2, len: 10 }, Frame { offset: 12, len: 10 }]
    );
}

#[test]
fn parse_two_frames_explicit_sizes() {
    // packing code 2: one explicit length, the rest is the second frame
    let mut buffer = vec![0b0000_0010u8, 3];
    buffer.extend([1, 2, 3, 4, 5, 6, 7]);
    let p = Packet::parse(&buffer).unwrap();
    assert_eq!(p.frame_packing, FramePacking::TwoFramesExplicitSizes(3, 4));
    assert_eq!(
        p.frames,
        vec![Frame { offset: 2, len: 3 }, Frame { offset: 5, len: 4 }]
    );
}

#[test]
fn parse_stereo_flag() {
    let buffer = vec![0b0000_0100u8, 0];
    let p = Packet::parse(&buffer).unwrap();
    assert!(p.stereo);
    assert_eq!(p.frame_packing, FramePacking::OneFrame(0));
}

#[test]
fn parse_config_byte_only_is_truncated() {
    // a lone configuration byte with packing code 0: no length byte yet
    let buffer = vec![0b0000_0000u8];
    assert!(matches!(Packet::parse(&buffer), Err(Error::Truncated)));
}

#[test]
fn parse_empty_is_truncated() {
    assert!(matches!(Packet::parse(&[]), Err(Error::Truncated)));
}

#[test]
fn parse_short_payload_is_truncated() {
    let buffer = vec![0b0000_0000u8, 10, 1, 2, 3];
    assert!(matches!(Packet::parse(&buffer), Err(Error::Truncated)));
}

#[test]
fn parse_prefixes_of_valid_packet_are_truncated() {
    let mut buffer = vec![0b1111_1001u8, 20];
    buffer.extend(std::iter::repeat(0xCD).take(20));
    assert!(Packet::parse(&buffer).is_ok());
    for cut in 0..buffer.len() {
        assert!(matches!(
            Packet::parse(&buffer[..cut]),
            Err(Error::Truncated)
        ));
    }
}

#[test]
fn parse_one_frame_prefixes_are_truncated() {
    let mut buffer = vec![0b0000_0000u8, 253, 5];
    buffer.extend(std::iter::repeat(0x11).take(273));
    assert!(Packet::parse(&buffer).is_ok());
    for cut in 0..buffer.len() {
        assert!(matches!(
            Packet::parse(&buffer[..cut]),
            Err(Error::Truncated)
        ));
    }
}

#[test]
fn explicit_sizes_prefixes_truncate_only_inside_the_first_frame() {
    // with the two-explicit-sizes packing the second frame is whatever
    // payload remains, so a cut that leaves the first frame whole is again
    // a complete packet, just with a shorter second frame
    let mut buffer = vec![0b0000_0010u8, 3];
    buffer.extend([1, 2, 3, 4, 5, 6, 7]);
    assert!(Packet::parse(&buffer).is_ok());
    let first_frame_end = 2 + 3;
    for cut in 0..buffer.len() {
        let r = Packet::parse(&buffer[..cut]);
        if cut < first_frame_end {
            assert!(matches!(r, Err(Error::Truncated)));
        } else {
            let p = r.unwrap();
            assert_eq!(
                p.frame_packing,
                FramePacking::TwoFramesExplicitSizes(3, cut - first_frame_end)
            );
        }
    }
}

#[test]
fn parse_trailing_bytes_are_invalid() {
    let mut buffer = vec![0b0000_0000u8, 4];
    buffer.extend([1, 2, 3, 4, 5]);
    assert!(matches!(Packet::parse(&buffer), Err(Error::InvalidPacket)));
}

#[test]
fn parse_odd_equal_split_is_invalid() {
    let mut buffer = vec![0b0000_0001u8, 9];
    buffer.extend(std::iter::repeat(0).take(9));
    assert!(matches!(Packet::parse(&buffer), Err(Error::InvalidPacket)));
}

#[test]
fn parse_arbitrary_packing_is_unsupported() {
    let buffer = vec![0b0000_0011u8, 1, 2, 3];
    assert!(matches!(
        Packet::parse(&buffer),
        Err(Error::UnsupportedFramePacking)
    ));
}

#[test]
fn parsed_spans_cover_the_input() {
    let cases: Vec<Vec<u8>> = vec![
        {
            let mut b = vec![0b0000_0000u8, 10];
            b.extend(std::iter::repeat(1).take(10));
            b
        },
        {
            let mut b = vec![0b1111_1001u8, 20];
            b.extend(std::iter::repeat(2).take(20));
            b
        },
        {
            let mut b = vec![0b0000_0010u8, 3];
            b.extend([1, 2, 3, 4, 5, 6, 7]);
            b
        },
    ];
    for buffer in cases {
        let p = Packet::parse(&buffer).unwrap();
        let header = p.frames[0].offset;
        let spans: usize = p.frames.iter().map(|f| f.len).sum();
        assert_eq!(header + spans, buffer.len());
        // spans are consecutive
        for w in p.frames.windows(2) {
            assert_eq!(w[1].offset, w[0].offset + w[0].len);
        }
    }
}

#[test]
fn frame_packing_new_reads_length_fields() {
    // code 0: one length field
    assert_eq!(
        FramePacking::new(&[0, 10, 9, 9], 1, 0),
        Ok((FramePacking::OneFrame(10), 1))
    );
    // code 1: combined even size
    assert_eq!(
        FramePacking::new(&[0, 8], 1, 1),
        Ok((FramePacking::TwoFramesEqualSize(8), 1))
    );
    // code 1, odd size
    assert_eq!(FramePacking::new(&[0, 9], 1, 1), Err(Error::InvalidPacket));
    // code 2: second frame is the remaining payload
    assert_eq!(
        FramePacking::new(&[0, 2, 7, 7, 7, 7, 7], 1, 2),
        Ok((FramePacking::TwoFramesExplicitSizes(2, 3), 1))
    );
    // code 2, first frame longer than what remains
    assert_eq!(
        FramePacking::new(&[0, 9, 1, 2], 1, 2),
        Err(Error::Truncated)
    );
    // code 3 is not interpreted
    assert_eq!(
        FramePacking::new(&[0, 1, 2], 1, 3),
        Err(Error::UnsupportedFramePacking)
    );
    // two-byte length field
    assert_eq!(
        FramePacking::new(&[0, 253, 5], 1, 0),
        Ok((FramePacking::OneFrame(273), 2))
    );
    // missing second length byte
    assert_eq!(FramePacking::new(&[0, 253], 1, 0), Err(Error::Truncated));
}
