//! Device side of the GUD (Generic USB Display) protocol, version 1,
//! independent of any USB stack or panel.
//!
//! The Linux host driver (drivers/gpu/drm/gud) is the de facto reference. All
//! multi-byte fields are little-endian and packed. The device exposes one
//! vendor-class interface with a single bulk OUT endpoint; control requests
//! describe the display and announce each framebuffer update, and the pixel
//! data for that update follows on the bulk endpoint.
//!
//! [`Protocol`] answers the control requests. It knows nothing about the
//! transport: the firmware feeds it the request number, `wValue` and the data
//! stage, and gets back either the bytes to return or a status code to stall
//! with. Anything that touches the panel comes out as a [`Command`].

use vstd::prelude::*;

pub mod connector;
pub mod display;
pub mod host;
pub mod laws;
pub mod req;
pub mod status;
pub mod stream;

pub use crate::protocol::connector::{
    Command, Connector, Rect, CONNECTOR_STATUS_CONNECTED, CONNECTOR_TYPE_PANEL,
    PIXEL_FORMAT_RGB565, PROPERTY_BACKLIGHT_BRIGHTNESS,
};
pub use crate::protocol::display::{
    Display, BYTES_PER_PIXEL, COMPRESSION_LZ4, MAGIC, MODE_FLAG_PREFERRED, VERSION,
};
pub use crate::bytes::{le_u16, le_u32};

use crate::bytes;

verus! {

/// VID/PID from the Linux driver's match table.
pub const USB_VID: u16 = 0x1d50;
pub const USB_PID: u16 = 0x614d;

pub const BULK_PACKET_SIZE: u16 = 64;
/// Largest response `control_in` writes.
pub const MAX_IN_LEN: usize = 32;

/// What one request has for the panel: at most two commands, in order.
pub struct Commands {
    pub first: Option<Command>,
    pub second: Option<Command>,
}

impl View for Commands {
    type V = Seq<Command>;

    open spec fn view(&self) -> Seq<Command> {
        match (self.first, self.second) {
            (Some(a), Some(b)) => seq![a, b],
            (Some(a), None) => seq![a],
            _ => seq![],
        }
    }
}

impl Commands {
    fn none() -> (c: Self)
        ensures
            c@ == Seq::<Command>::empty(),
    {
        Commands { first: None, second: None }
    }

    fn one(a: Command) -> (c: Self)
        ensures
            c@ == seq![a],
    {
        Commands { first: Some(a), second: None }
    }

    fn two(a: Command, b: Command) -> (c: Self)
        ensures
            c@ == seq![a, b],
    {
        Commands { first: Some(a), second: Some(b) }
    }
}

/// The status that a request with this result leaves.
pub open spec fn status_of(result: Result<(), u8>) -> u8 {
    match result {
        Ok(_) => status::OK,
        Err(code) => code,
    }
}

/// One of the sink's answers to `c` is that it takes it.
pub open spec fn accepts<F: FnMut(Command) -> Result<(), u8>>(sink: F, c: Command) -> bool {
    exists|answer: Result<(), u8>| call_ensures(sink, (c,), answer) && answer is Ok
}

/// One of the sink's answers to `c` is to refuse it with `code`.
pub open spec fn refuses<F: FnMut(Command) -> Result<(), u8>>(
    sink: F,
    c: Command,
    code: u8,
) -> bool {
    call_ensures(sink, (c,), Err::<(), u8>(code))
}

/// What came of handing `commands` to the sink in order: it took them all, or
/// it took those before some command and refused that one with `code`.
pub open spec fn handed_over<F: FnMut(Command) -> Result<(), u8>>(
    sink: F,
    commands: Seq<Command>,
    result: Result<(), u8>,
) -> bool {
    match result {
        Ok(_) => forall|i: int| 0 <= i < commands.len() ==> accepts(sink, #[trigger] commands[i]),
        Err(code) => exists|i: int|
            {
                &&& 0 <= i < commands.len()
                &&& refuses(sink, #[trigger] commands[i], code)
                &&& forall|j: int| 0 <= j < i ==> accepts(sink, #[trigger] commands[j])
            },
    }
}

/// The sink can be handed `commands` in order: each one once it has taken those
/// before it. Nothing allows a call out of turn, or one after a refusal.
pub open spec fn ready_in_order<F: FnMut(Command) -> Result<(), u8>>(
    sink: F,
    commands: Seq<Command>,
) -> bool {
    forall|i: int|
        0 <= i < commands.len() && (forall|j: int|
            0 <= j < i ==> accepts(sink, #[trigger] commands[j])) ==> call_requires(
            sink,
            (#[trigger] commands[i],),
        )
}

/// Hands the commands to the sink in order, and stops at the first that it
/// refuses.
fn hand_over<F: FnMut(Command) -> Result<(), u8>>(commands: Commands, mut sink: F) -> (r: Result<
    (),
    u8,
>)
    requires
        ready_in_order(sink, commands@),
    ensures
        handed_over(sink, commands@, r),
{
    broadcast use vstd::function::group_function_axioms;

    let ghost all = commands@;
    let ghost sink0 = sink;
    if let Some(first) = commands.first {
        assert(all[0] == first);
        let answer = sink(first);
        if let Err(code) = answer {
            assert(refuses(sink0, all[0], code));
            return Err(code);
        }
        assert(accepts(sink0, all[0]));
        if let Some(second) = commands.second {
            assert(all[1] == second);
            let answer = sink(second);
            if let Err(code) = answer {
                assert(refuses(sink0, all[1], code));
                return Err(code);
            }
            assert(accepts(sink0, all[1]));
        }
    }
    Ok(())
}

/// Control request handler and connector state.
pub struct Protocol {
    display: Display,
    status: u8,
    brightness: u8,
    pending_brightness: u8,
    enabled: bool,
}

impl View for Protocol {
    type V = Connector;

    closed spec fn view(&self) -> Connector {
        Connector {
            display: self.display,
            status: self.status,
            brightness: self.brightness,
            pending_brightness: self.pending_brightness,
            enabled: self.enabled,
        }
    }
}

impl Protocol {
    #[verifier::type_invariant]
    spec fn is_valid(self) -> bool {
        self@.valid()
    }

    pub fn new(display: Display) -> (p: Self)
        ensures
            p@ == (Connector {
                display,
                status: status::OK,
                brightness: 100,
                pending_brightness: 100,
                enabled: true,
            }),
    {
        Protocol {
            display,
            status: status::OK,
            brightness: 100,
            pending_brightness: 100,
            enabled: true,
        }
    }

    pub fn display(&self) -> (d: &Display)
        ensures
            *d == self@.display,
    {
        &self.display
    }

    /// Status of the last request, as `GET_STATUS` reports it.
    pub fn status(&self) -> (code: u8)
        ensures
            code == self@.status,
    {
        self.status
    }

    pub fn brightness(&self) -> (percent: u8)
        ensures
            percent == self@.brightness,
            percent <= 100,
    {
        proof {
            use_type_invariant(&*self);
        }
        self.brightness
    }

    pub fn enabled(&self) -> (on: bool)
        ensures
            on == self@.enabled,
    {
        self.enabled
    }

    /// USB bus reset.
    pub fn reset(&mut self)
        ensures
            final(self)@ == old(self)@.with_status(status::OK),
    {
        proof {
            use_type_invariant(&*self);
        }
        self.status = status::OK;
    }

    /// Answer a vendor IN request. `Ok(n)` means reply with `buf[..n]`
    /// (`buf` must hold the reply; [`MAX_IN_LEN`] bytes are always enough);
    /// `Err(code)` means stall, with `code` recorded for `GET_STATUS`.
    pub fn control_in(&mut self, request: u8, value: u16, buf: &mut [u8]) -> (r: Result<usize, u8>)
        requires
            request == req::GET_CONNECTOR_MODES && value == 0 ==> display::mode_fits(
                old(self)@.display,
            ),
            old(self)@.reply(request, value) matches Ok(reply) ==> old(buf)@.len() >= reply.len(),
        ensures
            match old(self)@.reply(request, value) {
                Ok(reply) => {
                    &&& r == Ok::<usize, u8>(reply.len() as usize)
                    &&& final(buf)@ == reply + old(buf)@.skip(reply.len() as int)
                },
                Err(code) => {
                    &&& r == Err::<usize, u8>(code)
                    &&& final(buf)@ == old(buf)@
                },
            },
            final(self)@ == old(self)@.after_reply(request, value),
    {
        proof {
            use_type_invariant(&*self);
        }
        let connector = value;
        let ghost reply = self@.reply(request, value);
        let len: usize = match request {
            // Reports the previous request's status; does not replace it.
            req::GET_STATUS => {
                bytes::put_u8(buf, 0, self.status);
                assert(buf@ =~= reply->Ok_0 + old(buf)@.skip(1));
                return Ok(1);
            },
            req::GET_DESCRIPTOR => self.display.descriptor(buf),
            req::GET_FORMATS => {
                bytes::put_u8(buf, 0, PIXEL_FORMAT_RGB565);
                1
            },
            req::GET_PROPERTIES => 0,
            req::GET_CONNECTORS => {
                bytes::put_u8(buf, 0, CONNECTOR_TYPE_PANEL);
                bytes::put_le32(buf, 1, 0);
                assert(buf@.take(5) =~= seq![CONNECTOR_TYPE_PANEL, 0, 0, 0, 0]);
                5
            },
            req::GET_CONNECTOR_PROPERTIES
            | req::GET_CONNECTOR_STATUS
            | req::GET_CONNECTOR_MODES
            | req::GET_CONNECTOR_EDID => {
                if connector != 0 {
                    return Err(self.fail(status::INVALID_PARAMETER));
                }
                match request {
                    req::GET_CONNECTOR_PROPERTIES => display::property(
                        buf,
                        PROPERTY_BACKLIGHT_BRIGHTNESS,
                        self.brightness as u64,
                    ),
                    req::GET_CONNECTOR_STATUS => {
                        bytes::put_u8(buf, 0, CONNECTOR_STATUS_CONNECTED);
                        1
                    },
                    req::GET_CONNECTOR_MODES => self.display.mode(buf),
                    // Fixed panel: no EDID, modes come from GET_CONNECTOR_MODES.
                    _ => 0,
                }
            },
            // GET_CONNECTOR_TV_MODE_VALUES and anything unknown.
            _ => return Err(self.fail(status::REQUEST_NOT_SUPPORTED)),
        };
        proof {
            bytes::written_at_front(old(buf)@, buf@, reply->Ok_0);
            assert(old(buf)@.skip(0) =~= old(buf)@);
        }
        self.status = status::OK;
        Ok(len)
    }

    /// Handle a vendor OUT request with its data stage. Panel work is
    /// handed to `sink` in order; if the sink fails, the request is
    /// rejected with the sink's status code. `Err(code)` means stall.
    pub fn control_out<F: FnMut(Command) -> Result<(), u8>>(
        &mut self,
        request: u8,
        data: &[u8],
        sink: F,
    ) -> (r: Result<(), u8>)
        requires
            old(self)@.commands(request, data@) matches Ok(commands) ==> ready_in_order(
                sink,
                commands,
            ),
        ensures
            match old(self)@.commands(request, data@) {
                Ok(commands) => handed_over(sink, commands, r),
                Err(code) => r == Err::<(), u8>(code),
            },
            final(self)@ == old(self)@.after(request, data@).with_status(status_of(r)),
    {
        match self.begin(request, data) {
            Ok(commands) => {
                let result = hand_over(commands, sink);
                self.finish(result)
            },
            Err(code) => Err(self.fail(code)),
        }
    }

    /// The first half of a vendor OUT request: checks it, changes the
    /// connector, and says what the panel has to do. The status is left for
    /// [`Protocol::finish`].
    pub fn begin(&mut self, request: u8, data: &[u8]) -> (r: Result<Commands, u8>)
        ensures
            match old(self)@.commands(request, data@) {
                Ok(commands) => r is Ok && r->Ok_0@ == commands,
                Err(code) => r is Err && r->Err_0 == code,
            },
            final(self)@ == old(self)@.after(request, data@),
    {
        match request {
            req::SET_BUFFER => match self.set_buffer(data) {
                Ok(rect) => Ok(Commands::one(Command::Update(rect))),
                Err(code) => Err(code),
            },
            req::SET_STATE_CHECK => match self.state_check(data) {
                Ok(()) => Ok(Commands::none()),
                Err(code) => Err(code),
            },
            req::SET_STATE_COMMIT => Ok(self.state_commit()),
            req::SET_CONTROLLER_ENABLE => Ok(Commands::none()),
            req::SET_DISPLAY_ENABLE => if data.len() > 0 {
                Ok(self.set_display_enabled(data[0] != 0))
            } else {
                Err(status::PROTOCOL_ERROR)
            },
            req::SET_CONNECTOR_FORCE_DETECT => Ok(Commands::none()),
            _ => Err(status::REQUEST_NOT_SUPPORTED),
        }
    }

    /// The second half of a vendor OUT request: records what came of it.
    pub fn finish(&mut self, result: Result<(), u8>) -> (r: Result<(), u8>)
        ensures
            r == result,
            final(self)@ == old(self)@.with_status(status_of(result)),
    {
        proof {
            use_type_invariant(&*self);
        }
        match result {
            Ok(()) => {
                self.status = status::OK;
            },
            Err(code) => {
                self.status = code;
            },
        }
        result
    }

    fn set_buffer(&self, data: &[u8]) -> (r: Result<Rect, u8>)
        ensures
            r == connector::announced_rect(self@.display, data@),
    {
        if data.len() < 25 {
            return Err(status::PROTOCOL_ERROR);
        }
        let x: u32 = bytes::u32_from(data, 0);
        let y: u32 = bytes::u32_from(data, 4);
        let width: u32 = bytes::u32_from(data, 8);
        let height: u32 = bytes::u32_from(data, 12);
        let length: u32 = bytes::u32_from(data, 16);
        let compression: u8 = data[20];
        let compressed_length: u32 = bytes::u32_from(data, 21);

        let d = &self.display;
        if width == 0 || height == 0 || x as u64 + width as u64 > d.width as u64 || y as u64
            + height as u64 > d.height as u64 {
            return Err(status::INVALID_PARAMETER);
        }
        proof {
            let (w, h) = (width as int, height as int);
            assert(w * h <= 0xffff * 0xffff) by (nonlinear_arith)
                requires
                    0 <= w <= 0xffff,
                    0 <= h <= 0xffff,
            ;
        }
        if length as u64 != width as u64 * height as u64 * BYTES_PER_PIXEL as u64 || (
        d.max_buffer_size != 0 && length > d.max_buffer_size) {
            return Err(status::INVALID_PARAMETER);
        }
        let (compressed, payload): (bool, u32) = match compression {
            0 => (false, length),
            COMPRESSION_LZ4 => {
                if d.compression % 2 == 1 && compressed_length > 0 && compressed_length
                    <= length {
                    (true, compressed_length)
                } else {
                    return Err(status::INVALID_PARAMETER);
                }
            },
            _ => return Err(status::INVALID_PARAMETER),
        };

        Ok(
            Rect {
                x: x as u16,
                y: y as u16,
                width: width as u16,
                height: height as u16,
                length,
                payload,
                compressed,
            },
        )
    }

    fn state_check(&mut self, data: &[u8]) -> (r: Result<(), u8>)
        ensures
            match old(self)@.commands(req::SET_STATE_CHECK, data@) {
                Ok(_) => r is Ok,
                Err(code) => r is Err && r->Err_0 == code,
            },
            final(self)@ == old(self)@.after(req::SET_STATE_CHECK, data@),
    {
        if data.len() < 26 {
            return Err(status::PROTOCOL_ERROR);
        }
        let hdisplay: u16 = bytes::u16_from(data, 4);
        let vdisplay: u16 = bytes::u16_from(data, 12);
        let format: u8 = data[24];
        let connector: u8 = data[25];
        if hdisplay != self.display.width || vdisplay != self.display.height || format
            != PIXEL_FORMAT_RGB565 || connector != 0 {
            return Err(status::INVALID_PARAMETER);
        }
        proof {
            use_type_invariant(&*self);
        }
        self.pending_brightness = self.brightness;
        let len: usize = data.len();
        let count: usize = (len - 26) / 10;
        let mut k: usize = 0;
        while k < count
            invariant
                len == data@.len(),
                len >= 26,
                count == connector::property_count(data@),
                k <= count,
                self@ == (Connector {
                    pending_brightness: connector::staged(data@, old(self)@.brightness, k as nat).0,
                    ..old(self)@
                }),
                self@.valid(),
                connector::staged(data@, old(self)@.brightness, k as nat).1,
                connector::state_matches(old(self)@.display, data@),
            decreases count - k,
        {
            let at: usize = 26 + 10 * k;
            let id: u16 = bytes::u16_from(data, at);
            let value: u32 = bytes::u32_from(data, at + 2);
            // Unknown properties are ignored for forward compatibility.
            if id == PROPERTY_BACKLIGHT_BRIGHTNESS {
                if value > 100 {
                    proof {
                        connector::staged_stops(
                            data@,
                            old(self)@.brightness,
                            (k + 1) as nat,
                            count as nat,
                        );
                    }
                    return Err(status::INVALID_PARAMETER);
                }
                self.pending_brightness = value as u8;
            }
            k += 1;
        }
        Ok(())
    }

    fn state_commit(&mut self) -> (c: Commands)
        ensures
            old(self)@.commands(req::SET_STATE_COMMIT, Seq::empty()) == Ok::<Seq<Command>, u8>(c@),
            final(self)@ == old(self)@.after(req::SET_STATE_COMMIT, Seq::empty()),
    {
        proof {
            use_type_invariant(&*self);
        }
        if self.pending_brightness != self.brightness {
            self.brightness = self.pending_brightness;
            if self.enabled {
                return Commands::one(Command::Brightness(self.brightness));
            }
        }
        Commands::none()
    }

    fn set_display_enabled(&mut self, on: bool) -> (c: Commands)
        ensures
            c@ == if on == old(self)@.enabled {
                seq![]
            } else {
                seq![
                    Command::Enable(on),
                    Command::Brightness(
                        if on {
                            old(self)@.brightness
                        } else {
                            0
                        },
                    ),
                ]
            },
            final(self)@ == (Connector { enabled: on, ..old(self)@ }),
    {
        if on == self.enabled {
            return Commands::none();
        }
        proof {
            use_type_invariant(&*self);
        }
        self.enabled = on;
        Commands::two(
            Command::Enable(on),
            Command::Brightness(
                if on {
                    self.brightness
                } else {
                    0
                },
            ),
        )
    }

    /// Records the status of a refused request.
    fn fail(&mut self, code: u8) -> (c: u8)
        ensures
            c == code,
            final(self)@ == old(self)@.with_status(code),
    {
        proof {
            use_type_invariant(&*self);
        }
        self.status = code;
        code
    }
}

} // verus!
