use gudlet::pipeline::spare::Spare;
use gudlet::pipeline::{
    decode_pixels, panel_pixels, CommandChannel, PayloadError, PayloadProgress,
};
use gudlet::protocol::{Command, Rect};

fn rect(length: u32, payload: u32, compressed: bool) -> Rect {
    Rect {
        x: 0,
        y: 0,
        width: (length / 2) as u16,
        height: 1,
        length,
        payload,
        compressed,
    }
}
#[test]
fn packet_boundaries_and_overrun() {
    let mut p = PayloadProgress::new(130);
    for n in [1, 63, 0, 64] {
        p.advance(n).unwrap();
    }
    assert_eq!(p.remaining(), 2);
    assert_eq!(p.advance(3), Err(PayloadError));
    assert_eq!(p.filled(), 128);
    p.advance(2).unwrap();
    assert!(p.complete());
}
#[test]
fn raw_does_not_touch_decode_buffer() {
    let mut raw = [1, 2, 3, 4];
    let mut scratch = [9; 4];
    assert_eq!(
        decode_pixels(&rect(4, 4, false), &mut raw, &mut scratch).unwrap(),
        [1, 2, 3, 4]
    );
    assert_eq!(scratch, [9; 4]);
    assert!(decode_pixels(&rect(4, 3, false), &mut raw, &mut scratch).is_err());
}
#[test]
fn lz4_exact_length_and_malformed_input() {
    // Four literals, an overlapping 12-byte match, then six final literals.
    let mut block = [0x48, 1, 2, 3, 4, 4, 0, 0x60, 5, 6, 7, 8, 9, 10];
    let mut scratch = [0xa5; 24];
    let result = decode_pixels(&rect(22, 14, true), &mut block, &mut scratch).unwrap();
    assert_eq!(
        result,
        [1, 2, 3, 4, 1, 2, 3, 4, 1, 2, 3, 4, 1, 2, 3, 4, 5, 6, 7, 8, 9, 10]
    );
    assert_eq!(&scratch[22..], &[0xa5; 2]);
    assert!(decode_pixels(&rect(24, 14, true), &mut block, &mut scratch).is_err());
    assert!(decode_pixels(&rect(20, 14, true), &mut block, &mut scratch).is_err());
    block[5] = 0; // invalid zero offset
    assert!(decode_pixels(&rect(22, 14, true), &mut block, &mut scratch).is_err());
}

#[test]
fn bands_come_out_in_the_panels_byte_order() {
    let mut raw = [1, 2, 3, 4, 9];
    let mut scratch = [0; 24];
    assert_eq!(panel_pixels(&rect(4, 4, false), &mut raw, &mut scratch).unwrap(), [2, 1, 4, 3]);
    assert_eq!(raw, [2, 1, 4, 3, 9]);
    let mut block = [0x48, 1, 2, 3, 4, 4, 0, 0x60, 5, 6, 7, 8, 9, 10];
    let pixels = panel_pixels(&rect(22, 14, true), &mut block, &mut scratch).unwrap();
    assert_eq!(&pixels[..6], &[2, 1, 4, 3, 2, 1]);
    assert_eq!(&pixels[16..], &[6, 5, 8, 7, 10, 9]);
}

#[test]
fn sizes_that_no_band_has_are_refused() {
    let mut raw = [0; 8];
    let mut scratch = [0; 8];
    for (length, payload) in [(0, 0), (3, 3), (4, 0), (4, 6), (10, 10)] {
        assert_eq!(
            decode_pixels(&rect(length, payload, false), &mut raw, &mut scratch).err(),
            Some(PayloadError)
        );
    }
    assert!(decode_pixels(&rect(10, 4, true), &mut raw, &mut scratch).is_err());
}

#[test]
fn a_queue_is_bounded_and_in_order() {
    let mut queue = CommandChannel::new();
    for i in 0..8 {
        assert_eq!(queue.free_capacity(), 8 - i);
        assert_eq!(queue.try_send(Command::Brightness(i as u8)), Ok(()));
    }
    assert_eq!(queue.try_send(Command::Enable(true)), Err(Command::Enable(true)));
    assert_eq!(queue.try_receive(), Some(Command::Brightness(0)));
    assert_eq!(queue.try_receive(), Some(Command::Brightness(1)));
    queue.clear();
    assert_eq!(queue.try_receive(), None);
    assert_eq!(queue.free_capacity(), 8);
}

#[test]
fn spare_buffers_go_out_and_come_back() {
    let mut spare = Spare::new("a", "b");
    assert_eq!(spare.take_idle(), Some("a"));
    assert_eq!(spare.take_idle(), Some("b"));
    assert_eq!(spare.take_idle(), None);
    assert_eq!(spare.put_idle("b"), Ok(()));
    assert_eq!(spare.put_idle("a"), Ok(()));
    assert_eq!(spare.put_idle("c"), Err("c"));
    assert_eq!(spare.take_idle(), Some("b"));
    assert_eq!(spare.take_idle(), Some("a"));
}
