# gudlet

Device side of a small USB display: the GUD (Generic USB Display) protocol, the
240x280 ST7789V2 panel of Waveshare's Touch-LCD-1.69 boards, the pixel pipeline
between the two, and the touch screen beside them. Written in Rust and verified
with Verus.

## Layout

- `src/` is the library. Its functions state what they do in `requires` and
  `ensures`, and Verus proves it. The exceptions are the wrappers around calls
  into other crates and into std, marked `external_body`, and the one
  `assume_specification`: they are believed. Each says which call it stands for
  and what it claims of it. A `ReportCell` is shared, so contracts tie a report
  to the cell it was loaded from, and not to the store before.
  - `protocol` answers the host's control requests and puts pixel bytes in order.
    `protocol::laws` says what holds whatever the host asks.
  - `pipeline` holds the queues between the cores, the bookkeeping of payloads
    and the decoding of bands.
  - `panel` has the geometry, the controller's command scripts, the boot logo,
    the text strip and test bars.
  - `touch` has the HID descriptor and reports, the class requests and the
    CST816 driver.
  - `rp2040` and `esp32s3` are the two boards: what to do with a packet, a
    command, an idle moment, a button, a status line.
  - `bytes`, `chunks`, `line` and `usb` are what the others share.
- `app/` is ordinary Rust around the library: pins, buses, USB stacks, tasks and
  the second core. The files under `app/bin/` are the roots of the two chips' own
  binaries.
- `tests/` runs the library.

## How the boards are split

The library decides and the boards act. Where a decision needs something from
outside, the library says what it needs and takes the answer: a packet off the
bulk endpoint, the level of an interrupt line, what a register held. What goes to
the panel is a script of pin levels, waits and bus writes.

Two things come from other crates inside the library: `lz4_flex` decodes bands,
and the queues are `embassy_sync` channels. From std, the boot line takes the
check for UTF-8 and the quoting of a panic message.

## Landscape

The panel is used upright. To present it as 280x240 instead, let `geometry` in
`src/panel.rs` name `landscape`.
