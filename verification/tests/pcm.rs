use couchmic::pcm::{
    frames_in, header_ok, over_limit, read_header, read_i16, read_mono, read_u16, PcmHeader,
};

#[test]
fn header_is_little_endian() {
    let b = [0x44, 0xac, 0x00, 0x00, 0x02, 0x00, 0xff, 0x01];
    let h = read_header(&b);
    assert_eq!(h, PcmHeader { rate: 44_100, channels: 2, seq: 511 });
    assert_eq!(read_u16(0x34, 0x12), 0x1234);
    let big = read_header(&[1, 2, 3, 4, 5, 6, 7, 8]);
    assert_eq!(big.rate, u32::from_le_bytes([1, 2, 3, 4]));
}

#[test]
fn samples_are_twos_complement() {
    for s in [0i16, 1, -1, 255, 256, -256, i16::MAX, i16::MIN, 12_345, -12_345] {
        let b = s.to_le_bytes();
        assert_eq!(read_i16(b[0], b[1]), s);
    }
}

#[test]
fn only_the_first_channel_is_taken() {
    let mut b = vec![0u8; 8];
    for s in [1i16, 100, 2, 200, 3, 300] {
        b.extend_from_slice(&s.to_le_bytes());
    }
    assert_eq!(read_mono(&b, 2), [1, 2, 3]);
    assert_eq!(read_mono(&b, 1), [1, 100, 2, 200, 3, 300]);
    assert_eq!(read_mono(&b, 3), [1, 200]);
    // A cut last frame still counts, a single byte does not.
    b.extend_from_slice(&[9, 0, 7]);
    assert_eq!(read_mono(&b, 2), [1, 2, 3, 9]);
    assert_eq!(read_mono(&[0; 8], 1), Vec::<i16>::new());
    assert_eq!(read_mono(&[0; 9], 8), Vec::<i16>::new());
}

#[test]
fn limits_of_a_block() {
    let h = |rate: u32, channels: u16| PcmHeader { rate, channels, seq: 0 };
    assert!(header_ok(&h(8_000, 1)) && header_ok(&h(192_000, 8)));
    assert!(!header_ok(&h(7_999, 1)) && !header_ok(&h(192_001, 1)));
    assert!(!header_ok(&h(48_000, 0)) && !header_ok(&h(48_000, 9)));
    assert_eq!(frames_in(8, &h(48_000, 1)), 0);
    assert_eq!(frames_in(8 + 13, &h(48_000, 2)), 3);
    assert_eq!(frames_in(8 + 13, &h(48_000, 0)), 6);
    assert!(!over_limit(4800, 48_000) && over_limit(4801, 48_000));
    assert!(!over_limit(1102, 11_025) && over_limit(1103, 11_025));
}
