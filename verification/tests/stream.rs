use gudlet::protocol::stream::{swap_pairs, PixelStream};

#[test]
fn swaps_pairs() {
    let mut px = [1, 2, 3, 4, 5];
    swap_pairs(&mut px);
    assert_eq!(px, [2, 1, 4, 3, 5]);
}

#[test]
fn stream_carries_split_pixels_across_packets() {
    let mut s = PixelStream::new();
    let mut out = [0u8; 8];
    assert_eq!(s.feed(&[1, 2], &mut out), (0, false));

    s.begin(6);
    assert!(s.is_active());
    // Three bytes: one whole pixel and a dangling low byte.
    assert_eq!(s.feed(&[0x11, 0x22, 0x33], &mut out), (2, false));
    assert_eq!(&out[..2], &[0x22, 0x11]);
    // The dangling byte pairs with the first byte here; extra bytes
    // past the update length are dropped.
    assert_eq!(s.feed(&[0x44, 0x55, 0x66, 0x77, 0x88], &mut out), (4, true));
    assert_eq!(&out[..4], &[0x44, 0x33, 0x66, 0x55]);
    assert!(!s.is_active());
    assert_eq!(s.feed(&[9, 9], &mut out), (0, false));
}

#[test]
fn abort_discards_carry() {
    let mut s = PixelStream::new();
    let mut out = [0u8; 4];
    s.begin(4);
    s.feed(&[1], &mut out);
    assert!(s.abort());
    assert!(!s.abort());
    s.begin(2);
    assert_eq!(s.feed(&[2, 3], &mut out), (2, true));
    assert_eq!(&out[..2], &[3, 2]);
}

#[test]
fn swapping_twice_gives_back_the_pixels() {
    let mut px = [1, 2, 3, 4, 5, 6, 7];
    swap_pairs(&mut px);
    swap_pairs(&mut px);
    assert_eq!(px, [1, 2, 3, 4, 5, 6, 7]);
}

#[test]
fn an_empty_packet_keeps_the_carried_byte() {
    let mut s = PixelStream::default();
    let mut out = [0u8; 8];
    s.begin(4);
    assert_eq!(s.feed(&[1], &mut out), (0, false));
    assert_eq!(s.feed(&[], &mut out), (0, false));
    assert_eq!(s.feed(&[2, 3, 4], &mut out), (4, true));
    assert_eq!(&out[..4], &[2, 1, 4, 3]);
}

#[test]
fn pixels_come_out_the_same_however_they_are_cut() {
    let data: Vec<u8> = (0..60).collect();
    let mut whole = [0u8; 61];
    let mut s = PixelStream::new();
    s.begin(60);
    assert_eq!(s.feed(&data, &mut whole), (60, true));
    for size in 1..20 {
        let mut got = Vec::new();
        let mut done = false;
        s.begin(60);
        for packet in data.chunks(size) {
            let mut out = [0u8; 21];
            let (n, last) = s.feed(packet, &mut out);
            got.extend_from_slice(&out[..n]);
            done = last;
        }
        assert!(done);
        assert_eq!(&got[..], &whole[..60]);
    }
}
