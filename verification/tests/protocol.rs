use gudlet::protocol::{
    le_u16, le_u32, req, status, Command, Display, Protocol, Rect, COMPRESSION_LZ4, MAGIC,
    MAX_IN_LEN, MODE_FLAG_PREFERRED, PIXEL_FORMAT_RGB565, PROPERTY_BACKLIGHT_BRIGHTNESS, VERSION,
};

fn raw() -> Display {
    Display::new(240, 280)
}

fn lz4() -> Display {
    Display::new(240, 280).with_lz4(240 * 280 * 2)
}

fn set_buffer(x: u32, y: u32, w: u32, h: u32, len: u32, compression: u8, clen: u32) -> [u8; 25] {
    let mut d = [0u8; 25];
    d[0..4].copy_from_slice(&x.to_le_bytes());
    d[4..8].copy_from_slice(&y.to_le_bytes());
    d[8..12].copy_from_slice(&w.to_le_bytes());
    d[12..16].copy_from_slice(&h.to_le_bytes());
    d[16..20].copy_from_slice(&len.to_le_bytes());
    d[20] = compression;
    d[21..25].copy_from_slice(&clen.to_le_bytes());
    d
}

fn state(props: &[(u16, u32)]) -> Vec<u8> {
    let mut d = vec![0u8; 26];
    d[4..6].copy_from_slice(&240u16.to_le_bytes());
    d[12..14].copy_from_slice(&280u16.to_le_bytes());
    d[24] = PIXEL_FORMAT_RGB565;
    for &(id, value) in props {
        d.extend_from_slice(&id.to_le_bytes());
        d.extend_from_slice(&(value as u64).to_le_bytes());
    }
    d
}

fn collect(p: &mut Protocol, request: u8, data: &[u8]) -> (Result<(), u8>, Vec<Command>) {
    let mut out = Vec::new();
    let r = p.control_out(request, data, |c| {
        out.push(c);
        Ok(())
    });
    (r, out)
}

#[test]
fn descriptor_advertises_display() {
    let mut p = Protocol::new(lz4());
    let mut buf = [0u8; MAX_IN_LEN];
    let n = p.control_in(req::GET_DESCRIPTOR, 0, &mut buf).unwrap();
    assert_eq!(n, 30);
    assert_eq!(le_u32(&buf[0..]), MAGIC);
    assert_eq!(buf[4], VERSION);
    assert_eq!(buf[9], COMPRESSION_LZ4);
    assert_eq!(le_u32(&buf[10..]), 240 * 280 * 2);
    assert_eq!(le_u32(&buf[14..]), 240);
    assert_eq!(le_u32(&buf[22..]), 280);

    let n = p.control_in(req::GET_CONNECTOR_MODES, 0, &mut buf).unwrap();
    assert_eq!(n, 24);
    assert_eq!(le_u16(&buf[4..]), 240);
    assert_eq!(le_u16(&buf[12..]), 280);
    assert_eq!(le_u32(&buf[20..]), MODE_FLAG_PREFERRED);
}

#[test]
fn status_follows_last_request() {
    let mut p = Protocol::new(raw());
    let mut buf = [0u8; MAX_IN_LEN];
    assert_eq!(p.control_in(0x7f, 0, &mut buf), Err(status::REQUEST_NOT_SUPPORTED));
    assert_eq!(p.control_in(req::GET_STATUS, 0, &mut buf), Ok(1));
    assert_eq!(buf[0], status::REQUEST_NOT_SUPPORTED);
    assert_eq!(p.control_in(req::GET_CONNECTOR_STATUS, 1, &mut buf), Err(status::INVALID_PARAMETER));
    assert_eq!(p.control_in(req::GET_FORMATS, 0, &mut buf), Ok(1));
    assert_eq!(buf[0], PIXEL_FORMAT_RGB565);
    p.control_in(req::GET_STATUS, 0, &mut buf).unwrap();
    assert_eq!(buf[0], status::OK);
}

#[test]
fn set_buffer_validates_rectangle() {
    let mut p = Protocol::new(raw());
    let (r, cmds) = collect(&mut p, req::SET_BUFFER, &set_buffer(10, 20, 100, 50, 100 * 50 * 2, 0, 0));
    assert_eq!(r, Ok(()));
    assert_eq!(
        cmds,
        [Command::Update(Rect {
            x: 10,
            y: 20,
            width: 100,
            height: 50,
            length: 10000,
            payload: 10000,
            compressed: false
        })]
    );

    let bad = [
        set_buffer(0, 0, 0, 10, 0, 0, 0),
        set_buffer(200, 0, 41, 10, 41 * 10 * 2, 0, 0),
        set_buffer(0, 271, 10, 10, 200, 0, 0),
        set_buffer(0, 0, 10, 10, 199, 0, 0),
        set_buffer(0, 0, 10, 10, 200, COMPRESSION_LZ4, 100),
    ];
    for data in &bad {
        let (r, cmds) = collect(&mut p, req::SET_BUFFER, data);
        assert_eq!(r, Err(status::INVALID_PARAMETER));
        assert!(cmds.is_empty());
    }
    assert_eq!(collect(&mut p, req::SET_BUFFER, &[0; 24]).0, Err(status::PROTOCOL_ERROR));
}

#[test]
fn set_buffer_accepts_lz4_when_advertised() {
    let mut p = Protocol::new(lz4());
    let (r, cmds) = collect(&mut p, req::SET_BUFFER, &set_buffer(0, 0, 240, 280, 134400, COMPRESSION_LZ4, 5000));
    assert_eq!(r, Ok(()));
    match cmds[0] {
        Command::Update(rect) => {
            assert!(rect.compressed);
            assert_eq!(rect.payload, 5000);
            assert_eq!(rect.length, 134400);
        }
        _ => panic!(),
    }
    let (r, _) = collect(&mut p, req::SET_BUFFER, &set_buffer(0, 0, 240, 280, 134400, COMPRESSION_LZ4, 134401));
    assert_eq!(r, Err(status::INVALID_PARAMETER));
    let (r, _) = collect(&mut p, req::SET_BUFFER, &set_buffer(0, 0, 240, 280, 134400, COMPRESSION_LZ4, 0));
    assert_eq!(r, Err(status::INVALID_PARAMETER));
}

#[test]
fn sink_failure_rejects_request() {
    let mut p = Protocol::new(raw());
    let r = p.control_out(req::SET_BUFFER, &set_buffer(0, 0, 10, 10, 200, 0, 0), |_| Err(status::PROTOCOL_ERROR));
    assert_eq!(r, Err(status::PROTOCOL_ERROR));
    assert_eq!(p.status(), status::PROTOCOL_ERROR);
}

#[test]
fn brightness_is_staged_then_committed() {
    let mut p = Protocol::new(raw());
    let (r, cmds) = collect(&mut p, req::SET_STATE_CHECK, &state(&[(PROPERTY_BACKLIGHT_BRIGHTNESS, 40)]));
    assert_eq!(r, Ok(()));
    assert!(cmds.is_empty());
    assert_eq!(p.brightness(), 100);
    let (r, cmds) = collect(&mut p, req::SET_STATE_COMMIT, &[]);
    assert_eq!(r, Ok(()));
    assert_eq!(cmds, [Command::Brightness(40)]);
    assert_eq!(p.brightness(), 40);
    // Unchanged brightness commits nothing.
    let _ = collect(&mut p, req::SET_STATE_CHECK, &state(&[(PROPERTY_BACKLIGHT_BRIGHTNESS, 40)]));
    assert!(collect(&mut p, req::SET_STATE_COMMIT, &[]).1.is_empty());
    // Unknown properties are ignored, out-of-range brightness is not.
    assert_eq!(collect(&mut p, req::SET_STATE_CHECK, &state(&[(99, 7)])).0, Ok(()));
    assert_eq!(
        collect(&mut p, req::SET_STATE_CHECK, &state(&[(PROPERTY_BACKLIGHT_BRIGHTNESS, 101)])).0,
        Err(status::INVALID_PARAMETER)
    );
    let mut wrong = state(&[]);
    wrong[4] = 0;
    assert_eq!(collect(&mut p, req::SET_STATE_CHECK, &wrong).0, Err(status::INVALID_PARAMETER));
}

#[test]
fn display_enable_toggles_panel_and_backlight() {
    let mut p = Protocol::new(raw());
    let _ = collect(&mut p, req::SET_STATE_CHECK, &state(&[(PROPERTY_BACKLIGHT_BRIGHTNESS, 30)]));
    let _ = collect(&mut p, req::SET_STATE_COMMIT, &[]);
    assert!(collect(&mut p, req::SET_DISPLAY_ENABLE, &[1]).1.is_empty());
    let (r, cmds) = collect(&mut p, req::SET_DISPLAY_ENABLE, &[0]);
    assert_eq!(r, Ok(()));
    assert_eq!(cmds, [Command::Enable(false), Command::Brightness(0)]);
    // Brightness changes while off are remembered, not applied.
    let _ = collect(&mut p, req::SET_STATE_CHECK, &state(&[(PROPERTY_BACKLIGHT_BRIGHTNESS, 60)]));
    assert!(collect(&mut p, req::SET_STATE_COMMIT, &[]).1.is_empty());
    let (_, cmds) = collect(&mut p, req::SET_DISPLAY_ENABLE, &[1]);
    assert_eq!(cmds, [Command::Enable(true), Command::Brightness(60)]);
    assert_eq!(collect(&mut p, req::SET_DISPLAY_ENABLE, &[]).0, Err(status::PROTOCOL_ERROR));
}

#[test]
fn mode_has_blanking_and_a_clock_for_sixty_hertz() {
    let mut p = Protocol::new(raw());
    let mut buf = [0u8; MAX_IN_LEN];
    assert_eq!(p.control_in(req::GET_CONNECTOR_MODES, 0, &mut buf), Ok(24));
    // 250 * 290 * 60 / 1000 kHz.
    assert_eq!(le_u32(&buf[0..]), 4350);
    assert_eq!(le_u16(&buf[6..]), 241);
    assert_eq!(le_u16(&buf[8..]), 242);
    assert_eq!(le_u16(&buf[10..]), 250);
    assert_eq!(le_u16(&buf[14..]), 281);
    assert_eq!(le_u16(&buf[16..]), 282);
    assert_eq!(le_u16(&buf[18..]), 290);
    assert_eq!(&buf[24..], &[0; 8]);
}

#[test]
fn other_replies() {
    let mut p = Protocol::new(raw());
    let mut buf = [9u8; MAX_IN_LEN];
    assert_eq!(p.control_in(req::GET_PROPERTIES, 0, &mut buf), Ok(0));
    assert_eq!(p.control_in(req::GET_CONNECTOR_EDID, 0, &mut buf), Ok(0));
    assert_eq!(buf, [9u8; MAX_IN_LEN]);
    assert_eq!(p.control_in(req::GET_CONNECTORS, 0, &mut buf), Ok(5));
    assert_eq!(&buf[..6], &[0, 0, 0, 0, 0, 9]);
    assert_eq!(p.control_in(req::GET_CONNECTOR_STATUS, 0, &mut buf), Ok(1));
    assert_eq!(buf[0], 1);
    assert_eq!(p.control_in(req::GET_CONNECTOR_PROPERTIES, 0, &mut buf), Ok(10));
    assert_eq!(&buf[..10], &[12, 0, 100, 0, 0, 0, 0, 0, 0, 0]);
    assert_eq!(
        p.control_in(req::GET_CONNECTOR_PROPERTIES, 1, &mut buf),
        Err(status::INVALID_PARAMETER)
    );
    assert_eq!(p.display().frame_bytes(), 134400);
}

#[test]
fn requests_without_panel_work() {
    let mut p = Protocol::new(raw());
    for request in [req::SET_CONTROLLER_ENABLE, req::SET_CONNECTOR_FORCE_DETECT] {
        assert_eq!(collect(&mut p, request, &[1]), (Ok(()), vec![]));
    }
    assert_eq!(collect(&mut p, 0x7f, &[]).0, Err(status::REQUEST_NOT_SUPPORTED));
    assert_eq!(p.status(), status::REQUEST_NOT_SUPPORTED);
    p.reset();
    assert_eq!(p.status(), status::OK);
    assert_eq!(collect(&mut p, req::SET_STATE_CHECK, &[0; 25]).0, Err(status::PROTOCOL_ERROR));
}

#[test]
fn rectangles_that_wrap_around_are_rejected() {
    let mut p = Protocol::new(raw());
    let bad = [
        set_buffer(u32::MAX, 0, 2, 1, 4, 0, 0),
        set_buffer(0, u32::MAX - 1, 1, 3, 6, 0, 0),
        set_buffer(1, 0, u32::MAX, 1, 0, 0, 0),
        set_buffer(0, 0, 10, 10, 200, 2, 100),
    ];
    for data in &bad {
        assert_eq!(collect(&mut p, req::SET_BUFFER, data), (Err(status::INVALID_PARAMETER), vec![]));
    }
}

#[test]
fn updates_are_limited_to_the_advertised_buffer() {
    let mut p = Protocol::new(Display::new(240, 280).with_lz4(480));
    assert!(p.control_out(req::SET_BUFFER, &set_buffer(0, 0, 240, 1, 480, 0, 0), |_| Ok(())).is_ok());
    assert_eq!(
        p.control_out(req::SET_BUFFER, &set_buffer(0, 0, 240, 2, 960, 0, 0), |_| Ok(())),
        Err(status::INVALID_PARAMETER)
    );
}

#[test]
fn a_refused_first_command_keeps_the_second_back() {
    let mut p = Protocol::new(raw());
    let mut seen = Vec::new();
    let r = p.control_out(req::SET_DISPLAY_ENABLE, &[0], |c| {
        seen.push(c);
        Err(7)
    });
    assert_eq!(r, Err(7));
    assert_eq!(seen, [Command::Enable(false)]);
    assert!(!p.enabled());
    assert_eq!(p.status(), 7);
}

#[test]
fn a_bad_property_leaves_what_was_staged_before_it() {
    let mut p = Protocol::new(raw());
    let props = [
        (PROPERTY_BACKLIGHT_BRIGHTNESS, 70),
        (PROPERTY_BACKLIGHT_BRIGHTNESS, 500),
        (PROPERTY_BACKLIGHT_BRIGHTNESS, 20),
    ];
    assert_eq!(
        collect(&mut p, req::SET_STATE_CHECK, &state(&props)).0,
        Err(status::INVALID_PARAMETER)
    );
    assert_eq!(
        collect(&mut p, req::SET_STATE_COMMIT, &[]),
        (Ok(()), vec![Command::Brightness(70)])
    );
}

#[test]
fn begin_and_finish_are_the_two_halves_of_a_request() {
    let mut p = Protocol::new(raw());
    let commands = p.begin(req::SET_DISPLAY_ENABLE, &[0]).ok().unwrap();
    assert_eq!(commands.first, Some(Command::Enable(false)));
    assert_eq!(commands.second, Some(Command::Brightness(0)));
    assert_eq!(p.status(), status::OK);
    assert_eq!(p.finish(Err(5)), Err(5));
    assert_eq!(p.status(), 5);
    assert_eq!(p.finish(Ok(())), Ok(()));
    assert_eq!(p.status(), status::OK);
}

#[test]
fn the_sink_is_asked_in_order_and_not_after_a_refusal() {
    let mut p = Protocol::new(raw());
    let mut seen = Vec::new();
    let r = p.control_out(req::SET_DISPLAY_ENABLE, &[0], |c| {
        seen.push(c);
        if seen.len() == 2 {
            Err(9)
        } else {
            Ok(())
        }
    });
    assert_eq!(r, Err(9));
    assert_eq!(seen, [Command::Enable(false), Command::Brightness(0)]);
    assert_eq!(p.status(), 9);
    assert!(!p.enabled());
}

#[test]
fn the_last_brightness_of_a_check_counts() {
    let mut p = Protocol::new(raw());
    let first = state(&[(PROPERTY_BACKLIGHT_BRIGHTNESS, 10)]);
    assert_eq!(collect(&mut p, req::SET_STATE_CHECK, &first).0, Ok(()));
    let props = [(PROPERTY_BACKLIGHT_BRIGHTNESS, 20), (PROPERTY_BACKLIGHT_BRIGHTNESS, 55), (7, 1)];
    assert_eq!(collect(&mut p, req::SET_STATE_CHECK, &state(&props)).0, Ok(()));
    let (r, cmds) = collect(&mut p, req::SET_STATE_COMMIT, &[]);
    assert_eq!((r, cmds), (Ok(()), vec![Command::Brightness(55)]));
    // A check without a brightness drops what an earlier one staged.
    assert_eq!(collect(&mut p, req::SET_STATE_CHECK, &first).0, Ok(()));
    assert_eq!(collect(&mut p, req::SET_STATE_CHECK, &state(&[])).0, Ok(()));
    assert_eq!(collect(&mut p, req::SET_STATE_COMMIT, &[]), (Ok(()), vec![]));
    assert_eq!(p.brightness(), 55);
}
