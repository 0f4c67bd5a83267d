//! The other end of a script: a model of the ST7789 controller on its bus, and
//! what the scripts make of it.

use vstd::prelude::*;

use crate::bytes;
use crate::chunks;
use crate::panel::geometry::{MADCTL, RAM_HEIGHT, RAM_WIDTH, X_OFFSET, Y_OFFSET};
use crate::panel::splash;
use crate::panel::st7789::{self, Op, PanelOp, St7789};
use crate::panel::{landscape, portrait, BYTES_PER_PIXEL, FRAME_BYTES, HEIGHT, WIDTH};

verus! {

/// The controller and the bus that leads to it.
pub struct Controller {
    /// CS is low.
    pub selected: bool,
    /// DC is high: what is written is data.
    pub data: bool,
    /// The command that came last.
    pub command: int,
    /// The data that came behind each command, the last time it was given.
    pub registers: Map<int, Seq<u8>>,
    pub awake: bool,
    pub on: bool,
    pub inverted: bool,
    /// Milliseconds waited so far.
    pub clock: int,
    /// When reset last fell and rose, when the first command came behind that,
    /// and when the controller was woken and switched on.
    pub reset_at: int,
    pub released_at: int,
    pub addressed_at: int,
    pub woken_at: int,
    pub on_at: int,
    /// A transfer is on its way.
    pub in_flight: bool,
    /// Something was written and may not have clocked out yet.
    pub pending: bool,
    /// A transfer leaves something in the bus's own queue when it has finished.
    pub lags: bool,
    /// A pin was moved, or something was written, before what went out earlier
    /// was through; or something was written while not selected.
    pub fault: bool,
}

impl Controller {
    /// Nothing is on its way, and nothing went wrong.
    pub open spec fn quiet(self) -> bool {
        !self.in_flight && !self.pending && !self.fault
    }

    /// A pin moves.
    pub open spec fn moved(self) -> Controller {
        Controller { fault: self.fault || self.in_flight || self.pending, ..self }
    }

    /// These bytes arrive.
    pub open spec fn written(self, b: Seq<u8>) -> Controller {
        let c = Controller {
            pending: true,
            fault: self.fault || self.in_flight || !self.selected,
            ..self
        };
        if self.data {
            c.with_data(b)
        } else {
            c.commanded(b[0] as int)
        }
    }

    /// Data for the command that came last.
    pub open spec fn with_data(self, b: Seq<u8>) -> Controller {
        Controller {
            registers: self.registers.insert(self.command, self.registers[self.command] + b),
            ..self
        }
    }

    /// A command arrives.
    pub open spec fn commanded(self, command: int) -> Controller {
        Controller {
            command,
            registers: self.registers.insert(command, Seq::empty()),
            awake: self.awake || command == 0x11,
            inverted: self.inverted || command == 0x21,
            on: (self.on || command == 0x29) && command != 0x28,
            addressed_at: if self.addressed_at < self.released_at {
                self.clock
            } else {
                self.addressed_at
            },
            woken_at: if command == 0x11 {
                self.clock
            } else {
                self.woken_at
            },
            on_at: if command == 0x29 {
                self.clock
            } else {
                self.on_at
            },
            ..self
        }
    }

    /// The reset pin moves. Low, it takes everything away.
    pub open spec fn reset(self, high: bool) -> Controller {
        if high {
            Controller { released_at: self.clock, addressed_at: -1, ..self.moved() }
        } else {
            Controller {
                command: 0,
                registers: Map::empty(),
                awake: false,
                on: false,
                inverted: false,
                reset_at: self.clock,
                ..self.moved()
            }
        }
    }

    /// One step of a script, with the pixels that it sends.
    pub open spec fn after(self, op: Op, pixels: Seq<u8>) -> Controller {
        match op {
            Op::Cs(high) => Controller { selected: !high, ..self.moved() },
            Op::Dc(high) => Controller { data: high, ..self.moved() },
            Op::Rst(high) => self.reset(high),
            Op::DelayMs(ms) => Controller { clock: self.clock + ms, ..self },
            Op::Write(b) => self.written(b),
            Op::TryWrite(b) => self.written(b),
            Op::Fill { color, bytes } => self.written(
                Seq::new(
                    bytes as nat,
                    |i: int|
                        if i % 2 == 0 {
                            (color / 256) as u8
                        } else {
                            (color % 256) as u8
                        },
                ),
            ),
            Op::Logo { rows } => self.written(splash::frame().take(2 * WIDTH * rows)),
            Op::Flush => Controller { pending: false, fault: self.fault || self.in_flight, ..self },
            Op::MustFlush => Controller {
                pending: false,
                fault: self.fault || self.in_flight,
                ..self
            },
            Op::Settle => Controller {
                in_flight: false,
                pending: self.pending || (self.in_flight && self.lags),
                ..self
            },
            Op::Send { from, to } => Controller {
                in_flight: true,
                fault: self.fault || !self.selected || !self.data,
                ..self.with_data(pixels.subrange(from as int, to as int))
            },
        }
    }

    /// After several steps.
    pub open spec fn after_ops(self, script: Seq<Op>, pixels: Seq<u8>) -> Controller
        decreases script.len(),
    {
        if script.len() == 0 {
            self
        } else {
            self.after_ops(script.drop_last(), pixels).after(script.last(), pixels)
        }
    }

    /// After a whole script.
    pub open spec fn run(self, script: Seq<PanelOp>, pixels: Seq<u8>) -> Controller
        decreases script.len(),
    {
        if script.len() == 0 {
            self
        } else {
            self.run(script.drop_last(), pixels).after(meaning(script.last()), pixels)
        }
    }

    /// The first and the last column, or row, that a window command gave, high
    /// bytes first.
    pub open spec fn first(self, command: int) -> int {
        256 * self.registers[command][0] + self.registers[command][1]
    }

    pub open spec fn last(self, command: int) -> int {
        256 * self.registers[command][2] + self.registers[command][3]
    }

    /// The window is whole: two columns and two rows were given.
    pub open spec fn has_window(self) -> bool {
        &&& self.registers.dom().contains(0x2A)
        &&& self.registers.dom().contains(0x2B)
        &&& self.registers[0x2A].len() == 4
        &&& self.registers[0x2B].len() == 4
    }

    /// The column and row of the RAM that pixel `k` of a write goes to: along
    /// the window's rows, one after the other.
    pub open spec fn place(self, k: int) -> (int, int) {
        let columns = self.last(0x2A) - self.first(0x2A) + 1;
        (self.first(0x2A) + k % columns, self.first(0x2B) + k / columns)
    }

    /// A write to the RAM is open, and these bytes have come.
    pub open spec fn writes(self, b: Seq<u8>) -> bool {
        &&& self.selected
        &&& self.data
        &&& self.command == 0x2C
        &&& self.registers[0x2C] == b
    }
}

/// What a step says, with its bytes as a sequence.
pub open spec fn meaning(op: PanelOp) -> Op {
    match op {
        PanelOp::Cs(high) => Op::Cs(high),
        PanelOp::Dc(high) => Op::Dc(high),
        PanelOp::Rst(high) => Op::Rst(high),
        PanelOp::DelayMs(ms) => Op::DelayMs(ms),
        PanelOp::Write(b) => Op::Write(b@),
        PanelOp::TryWrite(b) => Op::TryWrite(b@),
        PanelOp::Fill { color, bytes } => Op::Fill { color, bytes },
        PanelOp::Logo { rows } => Op::Logo { rows },
        PanelOp::Flush => Op::Flush,
        PanelOp::MustFlush => Op::MustFlush,
        PanelOp::Settle => Op::Settle,
        PanelOp::Send { from, to } => Op::Send { from, to },
    }
}

/// Running a script is running what it says.
pub proof fn runs_what_it_says(c: Controller, script: Seq<PanelOp>, pixels: Seq<u8>)
    ensures
        c.run(script, pixels) == c.after_ops(st7789::ops(script), pixels),
    decreases script.len(),
{
    if script.len() > 0 {
        runs_what_it_says(c, script.drop_last(), pixels);
        assert(st7789::ops(script).drop_last() =~= st7789::ops(script.drop_last()));
    }
}

/// A script can be run in parts.
pub proof fn runs_in_parts(c: Controller, a: Seq<Op>, b: Seq<Op>, pixels: Seq<u8>)
    ensures
        c.after_ops(a + b, pixels) == c.after_ops(a, pixels).after_ops(b, pixels),
    decreases b.len(),
{
    if b.len() == 0 {
        assert(a + b =~= a);
    } else {
        runs_in_parts(c, a, b.drop_last(), pixels);
        assert((a + b).drop_last() =~= a + b.drop_last());
    }
}

/// A command with its data leaves that data behind, and CS high.
pub open spec fn told(c: Controller, command: u8, data: Seq<u8>) -> Controller {
    let after = c.commanded(command as int);
    Controller {
        selected: false,
        data: data.len() > 0,
        registers: c.registers.insert(command as int, data),
        pending: false,
        ..after
    }
}

proof fn a_command_is_told(c: Controller, command: u8, data: Seq<u8>, pixels: Seq<u8>)
    requires
        c.quiet(),
    ensures
        c.after_ops(st7789::command_ops(command, data), pixels) == told(c, command, data),
{
    reveal_with_fuel(Controller::after_ops, 9);
    let script = st7789::command_ops(command, data);
    let after = c.after_ops(script, pixels);
    if data.len() > 0 {
        assert(script =~= seq![
            Op::Cs(false),
            Op::Dc(false),
            Op::Write(seq![command]),
            Op::Flush,
            Op::Dc(true),
            Op::Write(data),
            Op::Flush,
            Op::Cs(true),
        ]);
        assert(Seq::<u8>::empty() + data =~= data);
        assert(after.registers =~= told(c, command, data).registers);
    } else {
        assert(script =~= seq![
            Op::Cs(false),
            Op::Dc(false),
            Op::Write(seq![command]),
            Op::Flush,
            Op::Cs(true),
        ]);
        assert(data =~= Seq::<u8>::empty());
        assert(after.registers =~= told(c, command, data).registers);
    }
}

/// `after` has the window of this rectangle and a write to the RAM open in it,
/// with these bytes written. Everything else is as it was in `before`.
pub open spec fn opened(
    before: Controller,
    after: Controller,
    x: int,
    y: int,
    width: int,
    height: int,
    b: Seq<u8>,
) -> bool {
    &&& after.has_window()
    &&& after.first(0x2A) == x + X_OFFSET
    &&& after.last(0x2A) - after.first(0x2A) + 1 == width
    &&& after.first(0x2B) == y + Y_OFFSET
    &&& after.last(0x2B) - after.first(0x2B) + 1 == height
    &&& after.writes(b)
    &&& !after.fault
    &&& after.on == before.on
    &&& after.awake == before.awake
    &&& after.inverted == before.inverted
    &&& after.lags == before.lags
    &&& forall|k: int|
        k != 0x2A && k != 0x2B && k != 0x2C ==> #[trigger] after.registers[k] == before.registers[k]
}

/// The numbers that a window takes: two pairs of bytes, high ones first.
proof fn pairs_read_back(a: int, b: int)
    requires
        0 <= a <= 0xffff,
        0 <= b <= 0xffff,
    ensures
        ({
            let d = bytes::be16(a) + bytes::be16(b);
            &&& d.len() == 4
            &&& 256 * d[0] + d[1] == a
            &&& 256 * d[2] + d[3] == b
        }),
{
    let d = bytes::be16(a) + bytes::be16(b);
    assert(d =~= seq![
        (a / 256 % 256) as u8,
        (a % 256) as u8,
        (b / 256 % 256) as u8,
        (b % 256) as u8,
    ]);
}

/// What opens a write to the RAM.
spec fn write_ops() -> Seq<Op> {
    seq![
        Op::Cs(false),
        Op::Dc(false),
        Op::TryWrite(seq![0x2Cu8]),
        Op::Flush,
        Op::Dc(true),
    ]
}

proof fn a_write_is_opened(c: Controller, pixels: Seq<u8>)
    requires
        c.quiet(),
    ensures
        c.after_ops(write_ops(), pixels) == (Controller {
            selected: true,
            data: true,
            ..c.commanded(0x2C)
        }),
{
    reveal_with_fuel(Controller::after_ops, 6);
}

proof fn a_window_is_told(c: Controller, columns: Seq<u8>, rows: Seq<u8>, pixels: Seq<u8>)
    requires
        c.quiet(),
        columns.len() == 4,
        rows.len() == 4,
    ensures
        ({
            let script = st7789::command_ops(0x2A, columns) + st7789::command_ops(0x2B, rows)
                + write_ops();
            let after = c.after_ops(script, pixels);
            &&& after.quiet()
            &&& after.has_window()
            &&& after.registers[0x2A] == columns
            &&& after.registers[0x2B] == rows
            &&& after.writes(Seq::empty())
            &&& after.on == c.on
            &&& after.awake == c.awake
            &&& after.inverted == c.inverted
            &&& after.lags == c.lags
            &&& forall|k: int|
                k != 0x2A && k != 0x2B && k != 0x2C ==> #[trigger] after.registers[k]
                    == c.registers[k]
        }),
{
    let first = st7789::command_ops(0x2A, columns);
    let second = st7789::command_ops(0x2B, rows);
    runs_in_parts(c, first + second, write_ops(), pixels);
    runs_in_parts(c, first, second, pixels);
    a_command_is_told(c, 0x2A, columns, pixels);
    let c1 = told(c, 0x2A, columns);
    a_command_is_told(c1, 0x2B, rows, pixels);
    a_write_is_opened(told(c1, 0x2B, rows), pixels);
}

proof fn a_rect_is_opened(
    c: Controller,
    x: int,
    y: int,
    width: int,
    height: int,
    pixels: Seq<u8>,
)
    requires
        c.quiet(),
        0 <= x,
        0 <= y,
        0 <= width,
        0 <= height,
        1 <= x + X_OFFSET + width <= 0xffff,
        1 <= y + Y_OFFSET + height <= 0xffff,
    ensures
        ({
            let after = c.after_ops(st7789::begin_rect_ops(x, y, width, height), pixels);
            &&& opened(c, after, x, y, width, height, Seq::empty())
            &&& after.quiet()
        }),
{
    let (x0, y0) = (x + X_OFFSET, y + Y_OFFSET);
    let columns = bytes::be16(x0) + bytes::be16(x0 + width - 1);
    let rows = bytes::be16(y0) + bytes::be16(y0 + height - 1);
    pairs_read_back(x0, x0 + width - 1);
    pairs_read_back(y0, y0 + height - 1);
    a_window_is_told(c, columns, rows, pixels);
    assert(st7789::begin_rect_ops(x, y, width, height) == st7789::command_ops(0x2A, columns)
        + st7789::command_ops(0x2B, rows) + write_ops());
}

/// A rectangle's window holds it exactly: the controller is told as many columns
/// and rows as it has, from its own corner on, and waits for its pixels.
pub proof fn windows_hold_the_update(
    lcd: St7789,
    x: u16,
    y: u16,
    width: u16,
    height: u16,
    script: Vec<PanelOp>,
    c: Controller,
)
    requires
        call_ensures(St7789::begin_rect, (&lcd, x, y, width, height), script),
        1 <= x + X_OFFSET + width <= 0xffff,
        1 <= y + Y_OFFSET + height <= 0xffff,
        c.quiet(),
    ensures
        opened(
            c,
            c.run(script@, Seq::empty()),
            x as int,
            y as int,
            width as int,
            height as int,
            Seq::empty(),
        ),
        c.run(script@, Seq::empty()).quiet(),
{
    runs_what_it_says(c, script@, Seq::empty());
    a_rect_is_opened(c, x as int, y as int, width as int, height as int, Seq::empty());
}

/// Pixel `i` of row `j` of an update lands in its own column and row.
pub proof fn pixels_land_in_place(
    before: Controller,
    c: Controller,
    x: int,
    y: int,
    width: int,
    height: int,
    b: Seq<u8>,
    i: int,
    j: int,
)
    requires
        opened(before, c, x, y, width, height, b),
        0 <= i < width,
        0 <= j < height,
    ensures
        c.place(j * width + i) == (x + X_OFFSET + i, y + Y_OFFSET + j),
{
    vstd::arithmetic::div_mod::lemma_fundamental_div_mod_converse(j * width + i, width, j, i);
}

/// Closing a rectangle raises CS and changes nothing else.
pub proof fn closing_deselects(lcd: St7789, script: Vec<PanelOp>, c: Controller)
    requires
        call_ensures(St7789::end_rect, (&lcd,), script),
        c.quiet(),
    ensures
        c.run(script@, Seq::empty()) == (Controller { selected: false, ..c }),
{
    runs_what_it_says(c, script@, Seq::empty());
    reveal_with_fuel(Controller::after_ops, 2);
    assert(seq![Op::Cs(true)].drop_last() =~= Seq::<Op>::empty());
}

/// Switching the display switches it, and nothing else.
pub proof fn the_display_is_switched(lcd: St7789, on: bool, script: Vec<PanelOp>, c: Controller)
    requires
        call_ensures(St7789::set_display_on, (&lcd, on), script),
        c.quiet(),
    ensures
        ({
            let after = c.run(script@, Seq::empty());
            &&& after.on == on
            &&& after.quiet()
            &&& !after.selected
            &&& after.awake == c.awake
            &&& after.inverted == c.inverted
            &&& forall|k: int|
                k != 0x28 && k != 0x29 ==> #[trigger] after.registers[k] == c.registers[k]
        }),
{
    runs_what_it_says(c, script@, Seq::empty());
    let code: u8 = if on {
        0x29
    } else {
        0x28
    };
    a_command_is_told(c, code, Seq::empty(), Seq::empty());
}

/// What switches the display switches it.
pub proof fn a_switch_is_told(c: Controller, on: bool, pixels: Seq<u8>)
    requires
        c.quiet(),
    ensures
        ({
            let after = c.after_ops(st7789::display_ops(on), pixels);
            &&& after.on == on
            &&& after.quiet()
            &&& !after.selected
            &&& after.lags == c.lags
        }),
{
    let code: u8 = if on {
        0x29
    } else {
        0x28
    };
    a_command_is_told(c, code, Seq::empty(), pixels);
}

/// Filling writes the whole panel: every pixel of its window, in the colour.
pub proof fn filling_covers_the_panel(
    lcd: St7789,
    color: u16,
    script: Vec<PanelOp>,
    c: Controller,
    k: int,
)
    requires
        call_ensures(St7789::fill, (&lcd, color), script),
        c.quiet(),
        0 <= k < WIDTH * HEIGHT,
    ensures
        ({
            let after = c.run(script@, Seq::empty());
            let b = after.registers[0x2C];
            &&& after.quiet()
            &&& !after.selected
            &&& after.first(0x2A) == X_OFFSET
            &&& after.last(0x2A) - after.first(0x2A) + 1 == WIDTH
            &&& after.first(0x2B) == Y_OFFSET
            &&& after.last(0x2B) - after.first(0x2B) + 1 == HEIGHT
            &&& b.len() == 2 * (WIDTH * HEIGHT)
            &&& 256 * b[2 * k] + b[2 * k + 1] == color
        }),
{
    let none = Seq::<u8>::empty();
    runs_what_it_says(c, script@, none);
    a_rect_is_opened(c, 0, 0, WIDTH as int, HEIGHT as int, none);
    let open = c.after_ops(st7789::begin_rect_ops(0, 0, WIDTH as int, HEIGHT as int), none);
    let rest = seq![Op::Fill { color, bytes: FRAME_BYTES }, Op::Flush, Op::Cs(true)];
    runs_in_parts(c, st7789::begin_rect_ops(0, 0, WIDTH as int, HEIGHT as int), rest, none);
    reveal_with_fuel(Controller::after_ops, 4);
    let after = open.after_ops(rest, none);
    let filled = Seq::new(
        FRAME_BYTES as nat,
        |i: int|
            if i % 2 == 0 {
                (color / 256) as u8
            } else {
                (color % 256) as u8
            },
    );
    assert(none + filled =~= filled);
    assert(after.registers[0x2C] == filled);
    assert((2 * k) % 2 == 0 && (2 * k + 1) % 2 == 1);
}

/// The boot logo is written to the whole panel.
pub proof fn the_logo_covers_the_panel(lcd: St7789, script: Vec<PanelOp>, c: Controller)
    requires
        call_ensures(St7789::show_boot_logo, (&lcd,), script),
        c.quiet(),
    ensures
        ({
            let after = c.run(script@, Seq::empty());
            &&& after.quiet()
            &&& !after.selected
            &&& after.first(0x2A) == X_OFFSET
            &&& after.last(0x2A) - after.first(0x2A) + 1 == WIDTH
            &&& after.first(0x2B) == Y_OFFSET
            &&& after.last(0x2B) - after.first(0x2B) + 1 == HEIGHT
            &&& after.registers[0x2C] == splash::frame()
            &&& after.registers[0x2C].len() == 2 * (WIDTH * HEIGHT)
        }),
{
    let none = Seq::<u8>::empty();
    runs_what_it_says(c, script@, none);
    a_rect_is_opened(c, 0, 0, WIDTH as int, HEIGHT as int, none);
    let open = c.after_ops(st7789::begin_rect_ops(0, 0, WIDTH as int, HEIGHT as int), none);
    let rest = seq![Op::Logo { rows: HEIGHT }, Op::Flush, Op::Cs(true)];
    runs_in_parts(c, st7789::begin_rect_ops(0, 0, WIDTH as int, HEIGHT as int), rest, none);
    reveal_with_fuel(Controller::after_ops, 4);
    let after = open.after_ops(rest, none);
    let shown = splash::frame().take(2 * WIDTH * HEIGHT);
    assert(shown =~= splash::frame());
    assert(none + shown =~= splash::frame());
}

/// Several commands, one after the other.
pub open spec fn told_all(c: Controller, commands: Seq<(u8, Seq<u8>)>) -> Controller
    decreases commands.len(),
{
    if commands.len() == 0 {
        c
    } else {
        told(told_all(c, commands.drop_last()), commands.last().0, commands.last().1)
    }
}

proof fn commands_are_told(c: Controller, commands: Seq<(u8, Seq<u8>)>, pixels: Seq<u8>)
    requires
        c.quiet(),
    ensures
        c.after_ops(st7789::all_command_ops(commands), pixels) == told_all(c, commands),
        told_all(c, commands).quiet(),
    decreases commands.len(),
{
    if commands.len() > 0 {
        let earlier = commands.drop_last();
        let (command, data) = commands.last();
        commands_are_told(c, earlier, pixels);
        runs_in_parts(
            c,
            st7789::all_command_ops(earlier),
            st7789::command_ops(command, data),
            pixels,
        );
        a_command_is_told(told_all(c, earlier), command, data, pixels);
    }
}

/// The controller after the hardware reset.
proof fn the_controller_is_reset(c: Controller, pixels: Seq<u8>)
    requires
        c.quiet(),
        c.clock >= 0,
    ensures
        ({
            let after = c.after_ops(st7789::reset_ops(), pixels);
            &&& after.quiet()
            &&& !after.selected
            &&& after.released_at - after.reset_at == 100
            &&& after.clock - after.released_at == 100
            &&& after.addressed_at < 0 <= after.released_at
            &&& !after.awake && !after.on && !after.inverted
            &&& after.registers == Map::<int, Seq<u8>>::empty()
        }),
{
    reveal_with_fuel(Controller::after_ops, 8);
}

/// What the panel vendor's registers are to hold, and the pixel format.
pub open spec fn set_up(c: Controller) -> bool {
    &&& c.registers[0x36] == seq![MADCTL]
    &&& c.registers[0x3A] == seq![0x05u8]
    &&& c.registers[0xB2] == seq![0x0Bu8, 0x0B, 0x00, 0x33, 0x35]
    &&& c.registers[0xB7] == seq![0x11u8]
    &&& c.registers[0xBB] == seq![0x35u8]
    &&& c.registers[0xC0] == seq![0x2Cu8]
    &&& c.registers[0xC2] == seq![0x01u8]
    &&& c.registers[0xC3] == seq![0x0Du8]
    &&& c.registers[0xC4] == seq![0x20u8]
    &&& c.registers[0xC6] == seq![0x13u8]
    &&& c.registers[0xD0] == seq![0xA4u8, 0xA1]
    &&& c.registers[0xD6] == seq![0xA1u8]
    &&& c.registers[0xE0] == seq![
        0xF0u8, 0x06, 0x0B, 0x0A, 0x09, 0x26, 0x29, 0x33, 0x41, 0x18, 0x16, 0x15, 0x29, 0x2D,
    ]
    &&& c.registers[0xE1] == seq![
        0xF0u8, 0x04, 0x08, 0x08, 0x07, 0x03, 0x28, 0x32, 0x40, 0x3B, 0x19, 0x18, 0x2A, 0x2E,
    ]
    &&& c.registers[0xE4] == seq![0x25u8, 0x00, 0x00]
}

/// Nothing but the vendor's registers, the inversion, the wake-up and the switch was
/// touched.
pub open spec fn nothing_else(c: Controller) -> bool {
    forall|r: int| #[trigger]
        c.registers.dom().contains(r) ==> {
            ||| r == 0x11 || r == 0x21 || r == 0x29 || r == 0x36 || r == 0x3A
            ||| r == 0xB2 || r == 0xB7 || r == 0xBB
            ||| r == 0xC0 || r == 0xC2 || r == 0xC3 || r == 0xC4 || r == 0xC6
            ||| r == 0xD0 || r == 0xD6 || r == 0xE0 || r == 0xE1 || r == 0xE4
        }
}

/// Bits of a pixel, by the low three bits of the pixel format (`COLMOD`).
pub open spec fn bits_per_pixel(c: Controller) -> int {
    let format = c.registers[0x3A][0] % 8;
    if format == 3 {
        12
    } else if format == 5 {
        16
    } else if format == 6 {
        18
    } else {
        0
    }
}

/// After the set-up the controller holds the vendor's values, takes two bytes
/// for a pixel, is awake, inverted and on. It was held in reset, left alone
/// behind that, and had time to wake before it was switched on.
pub proof fn the_controller_is_set_up(lcd: St7789, script: Vec<PanelOp>, c: Controller)
    requires
        call_ensures(St7789::init, (&lcd,), script),
        c.quiet(),
        c.clock >= 0,
    ensures
        ({
            let after = c.run(script@, Seq::empty());
            &&& set_up(after)
            &&& nothing_else(after)
            &&& bits_per_pixel(after) == 8 * BYTES_PER_PIXEL
            &&& after.awake
            &&& after.on
            &&& after.inverted
            &&& after.quiet()
            &&& !after.selected
            &&& after.released_at - after.reset_at == 100
            &&& after.addressed_at - after.released_at == 100
            &&& after.on_at - after.woken_at == 120
        }),
{
    let none = Seq::<u8>::empty();
    runs_what_it_says(c, script@, none);
    let commands = st7789::setup_commands();
    let first = st7789::reset_ops();
    let second = st7789::all_command_ops(commands);
    let third = seq![Op::DelayMs(120)];
    let fourth = st7789::command_ops(0x29, seq![]);
    runs_in_parts(c, first + second + third, fourth, none);
    runs_in_parts(c, first + second, third, none);
    runs_in_parts(c, first, second, none);
    the_controller_is_reset(c, none);
    let c1 = c.after_ops(first, none);
    commands_are_told(c1, commands, none);
    let c2 = told_all(c1, commands);
    all_registers_are_told(c1);
    no_other_register_is_told(c1);
    reveal_with_fuel(Controller::after_ops, 2);
    assert(third.drop_last() =~= Seq::<Op>::empty());
    let c3 = c2.after_ops(third, none);
    a_command_is_told(c3, 0x29, seq![], none);
}

#[verifier::rlimit(60)]
proof fn no_other_register_is_told(c: Controller)
    requires
        c.registers == Map::<int, Seq<u8>>::empty(),
    ensures
        nothing_else(told_all(c, st7789::setup_commands())),
{
    reveal_with_fuel(told_all, 18);
}

#[verifier::rlimit(40)]
proof fn all_registers_are_told(c: Controller)
    requires
        c.addressed_at < 0 <= c.released_at <= c.clock,
        !c.awake && !c.on && !c.inverted,
    ensures
        ({
            let after = told_all(c, st7789::setup_commands());
            &&& set_up(after)
            &&& after.awake && !after.on && after.inverted
            &&& after.clock == c.clock
            &&& after.reset_at == c.reset_at
            &&& after.released_at == c.released_at
            &&& after.addressed_at == c.clock
            &&& after.woken_at == c.clock
        }),
{
    reveal_with_fuel(told_all, 18);
}

/// What is visible sits in the middle of the controller's RAM of 240 by 320,
/// whichever way round, and a frame has two bytes for each of its pixels.
pub proof fn the_panel_sits_in_the_middle()
    ensures
        2 * X_OFFSET + WIDTH == RAM_WIDTH,
        2 * Y_OFFSET + HEIGHT == RAM_HEIGHT,
        RAM_WIDTH * RAM_HEIGHT == 240 * 320,
        WIDTH * HEIGHT == 240 * 280,
        FRAME_BYTES == 2 * (WIDTH * HEIGHT),
        MADCTL == 0 <==> WIDTH < HEIGHT,
{
}

/// On its side the panel has its width and height changed over, on the glass and in
/// the RAM, and nothing else but the order of the scan.
pub proof fn the_panel_can_lie_on_its_side()
    ensures
        landscape::WIDTH == portrait::HEIGHT && landscape::HEIGHT == portrait::WIDTH,
        landscape::WIDTH_TENTH_MM == portrait::HEIGHT_TENTH_MM,
        landscape::HEIGHT_TENTH_MM == portrait::WIDTH_TENTH_MM,
        landscape::RAM_WIDTH == portrait::RAM_HEIGHT,
        landscape::RAM_HEIGHT == portrait::RAM_WIDTH,
        landscape::X_OFFSET == portrait::Y_OFFSET && landscape::Y_OFFSET == portrait::X_OFFSET,
        portrait::WIDTH == 240 && portrait::HEIGHT == 280,
        portrait::MADCTL == 0 && landscape::MADCTL == 0x70,
{
}

/// What sends the pieces between these places.
pub open spec fn sends(spans: Seq<(nat, nat)>) -> Seq<Op> {
    Seq::new(
        spans.len(),
        |i: int| Op::Send { from: spans[i].0 as usize, to: spans[i].1 as usize },
    )
}

/// Sending the pieces from `at` on writes the pixels from `at` on, in order.
pub proof fn sends_write_the_pixels(
    c: Controller,
    len: nat,
    at: nat,
    size: nat,
    pixels: Seq<u8>,
)
    requires
        c.selected,
        c.data,
        !c.fault,
        at <= len <= pixels.len(),
        len <= usize::MAX,
        size > 0,
    ensures
        ({
            let after = c.after_ops(sends(chunks::spans(len, at, size)), pixels);
            &&& after == Controller {
                in_flight: c.in_flight || at < len,
                registers: after.registers,
                ..c
            }
            &&& after.registers[c.command] == c.registers[c.command] + pixels.subrange(
                at as int,
                len as int,
            )
            &&& forall|k: int|
                k != c.command ==> #[trigger] after.registers[k] == c.registers[k]
            &&& c.registers.dom().subset_of(after.registers.dom())
        }),
    decreases len - at,
{
    let spans = chunks::spans(len, at, size);
    if at >= len {
        assert(sends(spans) =~= Seq::<Op>::empty());
        assert(c.registers[c.command] + pixels.subrange(at as int, len as int)
            =~= c.registers[c.command]);
    } else {
        let end = chunks::piece_end(len as int, at as int, size as int) as nat;
        let one = seq![Op::Send { from: at as usize, to: end as usize }];
        let rest = chunks::spans(len, end, size);
        assert(sends(spans) =~= one + sends(rest));
        runs_in_parts(c, one, sends(rest), pixels);
        reveal_with_fuel(Controller::after_ops, 2);
        assert(one.drop_last() =~= Seq::<Op>::empty());
        let c1 = c.after_ops(one, pixels);
        sends_write_the_pixels(c1, len, end, size, pixels);
        assert(pixels.subrange(at as int, end as int) + pixels.subrange(end as int, len as int)
            =~= pixels.subrange(at as int, len as int));
        assert(c.registers[c.command] + pixels.subrange(at as int, end as int) + pixels.subrange(
            end as int,
            len as int,
        ) =~= c.registers[c.command] + pixels.subrange(at as int, len as int));
    }
}

/// A band behind what closes the rectangle before: its window, and all of its
/// pixels.
pub proof fn a_band_is_written(
    c: Controller,
    closing: Seq<Op>,
    x: int,
    y: int,
    width: int,
    height: int,
    len: nat,
    size: nat,
    pixels: Seq<u8>,
)
    requires
        ({
            let closed = c.after_ops(closing, pixels);
            &&& closed.quiet()
            &&& closed.on == c.on
            &&& closed.awake == c.awake
            &&& closed.inverted == c.inverted
            &&& closed.lags == c.lags
            &&& closed.registers == c.registers
        }),
        0 <= x,
        0 <= y,
        0 <= width,
        0 <= height,
        1 <= x + X_OFFSET + width <= 0xffff,
        1 <= y + Y_OFFSET + height <= 0xffff,
        len <= pixels.len(),
        len <= usize::MAX,
        size > 0,
    ensures
        ({
            let script = closing + st7789::begin_rect_ops(x, y, width, height) + st7789::send_ops(
                len,
                size,
            );
            let after = c.after_ops(script, pixels);
            &&& opened(c, after, x, y, width, height, pixels.take(len as int))
            &&& !after.pending
        }),
{
    let opening = st7789::begin_rect_ops(x, y, width, height);
    let closed = c.after_ops(closing, pixels);
    runs_in_parts(c, closing + opening, st7789::send_ops(len, size), pixels);
    runs_in_parts(c, closing, opening, pixels);
    a_rect_is_opened(closed, x, y, width, height, pixels);
    let open = closed.after_ops(opening, pixels);
    assert(st7789::send_ops(len, size) =~= sends(chunks::spans(len, 0, size)));
    sends_write_the_pixels(open, len, 0, size, pixels);
    assert(Seq::<u8>::empty() + pixels.subrange(0, len as int) =~= pixels.take(len as int));
}

/// No piece is longer than a transfer takes, or empty.
pub proof fn sends_are_short(len: nat, at: nat, size: nat)
    requires
        size > 0,
        at <= len <= usize::MAX,
    ensures
        forall|i: int|
            0 <= i < sends(chunks::spans(len, at, size)).len() ==> (#[trigger] sends(
                chunks::spans(len, at, size),
            )[i] matches Op::Send { from, to } && at <= from < to <= len && to - from <= size),
    decreases len - at,
{
    let spans = chunks::spans(len, at, size);
    if at < len {
        let end = chunks::piece_end(len as int, at as int, size as int) as nat;
        sends_are_short(len, end, size);
        let rest = sends(chunks::spans(len, end, size));
        assert forall|i: int| 0 <= i < sends(spans).len() implies (#[trigger] sends(
            spans,
        )[i] matches Op::Send { from, to } && at <= from < to <= len && to - from <= size) by {
            if i > 0 {
                assert(spans[i] == chunks::spans(len, end, size)[i - 1]);
                assert(sends(spans)[i] == rest[i - 1]);
            }
        }
    }
}

/// A rectangle can be told to the controller if its last column and row, in the
/// controller's RAM, are numbers of 16 bits.
pub proof fn corners_are_checked(x: u16, y: u16, width: u16, height: u16, fits: bool)
    requires
        call_ensures(st7789::is_addressable, (x, y, width, height), fits),
    ensures
        fits <==> 1 <= x + X_OFFSET + width <= 0xffff && 1 <= y + Y_OFFSET + height <= 0xffff,
{
}

} // verus!
