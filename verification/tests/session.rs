use opus_kman::packet::Packet;
use opus_kman::range_decoder::{RangeDecoder, RENORM_LIMIT};
use opus_kman::{Application, SampleRate};

#[test]
fn sample_rates_in_hertz() {
    assert_eq!(SampleRate::Hz8000.hz(), 8000);
    assert_eq!(SampleRate::Hz12000.hz(), 12000);
    assert_eq!(SampleRate::Hz16000.hz(), 16000);
    assert_eq!(SampleRate::Hz24000.hz(), 24000);
    assert_eq!(SampleRate::Hz48000.hz(), 48000);
}

#[test]
fn configuration_defaults() {
    assert_eq!(SampleRate::default(), SampleRate::Hz48000);
    assert_eq!(Application::default(), Application::VOIP);
}

#[test]
fn decode_a_parsed_frame() {
    // parse a packet, hand each frame span to its own range decoder
    let mut buffer = vec![0b1111_1001u8, 4];
    buffer.extend([0x80, 0x44, 0x12, 0xF0]);
    let p = Packet::parse(&buffer).unwrap();
    assert_eq!(p.frames.len(), 2);
    for f in &p.frames {
        let span = &buffer[f.offset..f.offset + f.len];
        let mut d = RangeDecoder::new(span);
        let sym = d.decode_symbol(&[1, 2, 1]).unwrap();
        assert!(sym < 3);
        assert!(d.range >= RENORM_LIMIT);
    }
}
