//! What holds of the connector whatever the host asks.

use vstd::prelude::*;

use crate::bytes;
use crate::protocol::connector::{self, Command, Connector, Rect, PROPERTY_BACKLIGHT_BRIGHTNESS};
use crate::protocol::display::{Display, BYTES_PER_PIXEL, COMPRESSION_LZ4};
use crate::protocol::{self, req, status, MAX_IN_LEN};

verus! {

/// `GET_STATUS` reports how the request before it went, and reading the status
/// does not replace it.
pub proof fn status_follows_the_last_reply(c: Connector, request: u8, value: u16, any: u16)
    requires
        request != req::GET_STATUS,
    ensures
        c.after_reply(request, value).reply(req::GET_STATUS, any) == Ok::<Seq<u8>, u8>(
            seq![
                match c.reply(request, value) {
                    Ok(_) => status::OK,
                    Err(code) => code,
                },
            ],
        ),
        c.after_reply(req::GET_STATUS, any) == c,
{
}

/// `GET_STATUS` reports how the request before it went, also one that had work
/// for the panel. A bus reset clears it.
pub proof fn status_follows_the_last_request(
    c: Connector,
    request: u8,
    data: Seq<u8>,
    result: Result<(), u8>,
    any: u16,
)
    ensures
        c.after(request, data).with_status(protocol::status_of(result)).reply(req::GET_STATUS, any)
            == Ok::<Seq<u8>, u8>(
            seq![
                match result {
                    Ok(_) => status::OK,
                    Err(code) => code,
                },
            ],
        ),
        c.with_status(status::OK).reply(req::GET_STATUS, any) == Ok::<Seq<u8>, u8>(
            seq![status::OK],
        ),
{
}

/// What the connector does not know stalls, and reaches neither it nor the
/// panel.
pub proof fn unknown_requests_are_not_supported(
    c: Connector,
    request: u8,
    value: u16,
    data: Seq<u8>,
)
    ensures
        ({
            &&& request != req::GET_STATUS
            &&& request != req::GET_DESCRIPTOR
            &&& request != req::GET_FORMATS
            &&& request != req::GET_PROPERTIES
            &&& request != req::GET_CONNECTORS
            &&& request != req::GET_CONNECTOR_PROPERTIES
            &&& request != req::GET_CONNECTOR_STATUS
            &&& request != req::GET_CONNECTOR_MODES
            &&& request != req::GET_CONNECTOR_EDID
        }) <==> c.reply(request, value) == Err::<Seq<u8>, u8>(status::REQUEST_NOT_SUPPORTED),
        ({
            &&& request != req::SET_BUFFER
            &&& request != req::SET_STATE_CHECK
            &&& request != req::SET_STATE_COMMIT
            &&& request != req::SET_CONTROLLER_ENABLE
            &&& request != req::SET_DISPLAY_ENABLE
            &&& request != req::SET_CONNECTOR_FORCE_DETECT
        }) <==> c.commands(request, data) == Err::<Seq<Command>, u8>(
            status::REQUEST_NOT_SUPPORTED,
        ),
        c.commands(request, data) == Err::<Seq<Command>, u8>(status::REQUEST_NOT_SUPPORTED)
            ==> c.after(request, data) == c,
{
}

/// A request that is answered changes nothing but the status.
pub proof fn replies_change_only_the_status(c: Connector, request: u8, value: u16)
    ensures
        c.after_reply(request, value) == c.with_status(c.after_reply(request, value).status),
{
}

/// No reply is longer than `MAX_IN_LEN`.
pub proof fn replies_are_short(c: Connector, request: u8, value: u16)
    ensures
        c.reply(request, value) matches Ok(reply) ==> reply.len() <= MAX_IN_LEN,
{
}

/// The update lies on the display, is as long as its pixels, does not expand
/// on the wire, and is compressed only where the display takes that.
pub open spec fn valid_rect(d: Display, r: Rect) -> bool {
    &&& r.width > 0
    &&& r.height > 0
    &&& r.x + r.width <= d.width
    &&& r.y + r.height <= d.height
    &&& r.length == r.width * r.height * BYTES_PER_PIXEL
    &&& d.max_buffer_size == 0 || r.length <= d.max_buffer_size
    &&& 0 < r.payload <= r.length
    &&& r.compressed ==> d.compression % 2 == 1
    &&& !r.compressed ==> r.payload == r.length
}

/// The data stage by which a host announces an update.
pub open spec fn announcement(r: Rect) -> Seq<u8> {
    bytes::le32(r.x as int) + bytes::le32(r.y as int) + bytes::le32(r.width as int) + bytes::le32(
        r.height as int,
    ) + bytes::le32(r.length as int) + seq![
        if r.compressed {
            COMPRESSION_LZ4
        } else {
            0
        },
    ] + bytes::le32(r.payload as int)
}

/// Every update that is let through is valid.
pub proof fn accepted_rects_are_valid(d: Display, data: Seq<u8>)
    ensures
        connector::announced_rect(d, data) matches Ok(r) ==> valid_rect(d, r),
{
    if connector::announced_rect(d, data) is Ok {
        let (w, h) = (bytes::u32_at(data, 8), bytes::u32_at(data, 12));
        assert(w * h > 0) by (nonlinear_arith)
            requires
                w > 0,
                h > 0,
        ;
    }
}

/// Every valid update can be announced, and is taken as it was meant.
pub proof fn valid_rects_are_accepted(d: Display, r: Rect)
    requires
        valid_rect(d, r),
    ensures
        connector::announced_rect(d, announcement(r)) == Ok::<Rect, u8>(r),
{
    let data = announcement(r);
    assert(data.len() == 25);
    assert(data.subrange(0, 4) =~= bytes::le32(r.x as int));
    assert(data.subrange(4, 8) =~= bytes::le32(r.y as int));
    assert(data.subrange(8, 12) =~= bytes::le32(r.width as int));
    assert(data.subrange(12, 16) =~= bytes::le32(r.height as int));
    assert(data.subrange(16, 20) =~= bytes::le32(r.length as int));
    assert(data.subrange(21, 25) =~= bytes::le32(r.payload as int));
    bytes::le32_reads_back(r.x as u32);
    bytes::le32_reads_back(r.y as u32);
    bytes::le32_reads_back(r.width as u32);
    bytes::le32_reads_back(r.height as u32);
    bytes::le32_reads_back(r.length);
    bytes::le32_reads_back(r.payload);
    bytes::u32_in_subrange(data, 0);
    bytes::u32_in_subrange(data, 4);
    bytes::u32_in_subrange(data, 8);
    bytes::u32_in_subrange(data, 12);
    bytes::u32_in_subrange(data, 16);
    bytes::u32_in_subrange(data, 21);
}

/// Updates larger than the display takes, and LZ4 payloads that are empty,
/// larger than the raw size or not advertised, are rejected.
pub proof fn oversized_and_empty_updates_are_rejected(d: Display, data: Seq<u8>)
    requires
        data.len() >= 25,
        ({
            ||| d.max_buffer_size != 0 && bytes::u32_at(data, 16) > d.max_buffer_size
            ||| data[20] == COMPRESSION_LZ4 && bytes::u32_at(data, 21) == 0
            ||| data[20] == COMPRESSION_LZ4 && bytes::u32_at(data, 21) > bytes::u32_at(data, 16)
            ||| data[20] == COMPRESSION_LZ4 && d.compression % 2 == 0
        }),
    ensures
        connector::announced_rect(d, data) == Err::<Rect, u8>(status::INVALID_PARAMETER),
{
}

/// The properties leave a percentage a percentage.
pub proof fn staged_brightness_is_a_percentage(data: Seq<u8>, brightness: u8, n: nat)
    requires
        brightness <= 100,
    ensures
        connector::staged(data, brightness, n).0 <= 100,
    decreases n,
{
    if n > 0 {
        staged_brightness_is_a_percentage(data, brightness, (n - 1) as nat);
    }
}

/// Properties other than the brightness are passed over.
pub proof fn unknown_properties_are_ignored(data: Seq<u8>, brightness: u8, n: nat)
    requires
        forall|k: int|
            0 <= k < n ==> #[trigger] connector::property_id(data, k)
                != PROPERTY_BACKLIGHT_BRIGHTNESS,
    ensures
        connector::staged(data, brightness, n) == (brightness, true),
    decreases n,
{
    if n > 0 {
        unknown_properties_are_ignored(data, brightness, (n - 1) as nat);
    }
}

/// No request takes the brightness out of 0..=100, in the connector or in a
/// command; none has more than two commands; and the display stays as it is.
pub proof fn requests_keep_the_connector_valid(c: Connector, request: u8, data: Seq<u8>)
    requires
        c.valid(),
    ensures
        c.after(request, data).valid(),
        c.after(request, data).display == c.display,
        c.commands(request, data) matches Ok(commands) ==> {
            &&& commands.len() <= 2
            &&& forall|i: int|
                0 <= i < commands.len() ==> (#[trigger] commands[i] matches Command::Brightness(b)
                    ==> b <= 100)
            &&& forall|i: int|
                0 <= i < commands.len() ==> (#[trigger] commands[i] matches Command::Update(r)
                    ==> valid_rect(c.display, r))
        },
{
    staged_brightness_is_a_percentage(data, c.brightness, connector::property_count(data));
    accepted_rects_are_valid(c.display, data);
}

/// The properties are acceptable if no brightness among them is over 100. The
/// last brightness then counts, and the one that was set if there is none.
pub proof fn the_last_brightness_counts(data: Seq<u8>, brightness: u8, n: nat)
    ensures
        connector::staged(data, brightness, n).1 <==> forall|k: int|
            0 <= k < n && #[trigger] connector::property_id(data, k)
                == PROPERTY_BACKLIGHT_BRIGHTNESS ==> connector::property_value(data, k) <= 100,
        connector::staged(data, brightness, n).1 ==> {
            ||| {
                &&& connector::staged(data, brightness, n).0 == brightness
                &&& forall|k: int|
                    0 <= k < n ==> #[trigger] connector::property_id(data, k)
                        != PROPERTY_BACKLIGHT_BRIGHTNESS
            }
            ||| exists|k: int| #[trigger] is_last_brightness(data, k, n)
                && connector::staged(data, brightness, n).0 == connector::property_value(data, k)
        },
    decreases n,
{
    if n > 0 {
        let m = (n - 1) as nat;
        the_last_brightness_counts(data, brightness, m);
        let before = connector::staged(data, brightness, m);
        if connector::property_id(data, n - 1) == PROPERTY_BACKLIGHT_BRIGHTNESS {
            assert(is_last_brightness(data, n - 1, n));
        } else if before.1 && exists|k: int| #[trigger] is_last_brightness(data, k, m) {
            let k = choose|k: int| #[trigger] is_last_brightness(data, k, m)
                && before.0 == connector::property_value(data, k);
            assert(is_last_brightness(data, k, n));
        }
    }
}

/// Property `k` is the last brightness among the first `n`.
pub open spec fn is_last_brightness(data: Seq<u8>, k: int, n: nat) -> bool {
    &&& 0 <= k < n
    &&& connector::property_id(data, k) == PROPERTY_BACKLIGHT_BRIGHTNESS
    &&& forall|j: int|
        k < j < n ==> #[trigger] connector::property_id(data, j) != PROPERTY_BACKLIGHT_BRIGHTNESS
}

/// A checked brightness shows nowhere until it is committed; the commit then
/// applies exactly it, whatever earlier checks had staged, and tells the panel
/// if that is on and there is something new. A second commit has nothing left
/// to do.
pub proof fn brightness_is_staged_then_committed(
    c: Connector,
    check: Seq<u8>,
    commit: Seq<u8>,
    again: Seq<u8>,
)
    requires
        c.commands(req::SET_STATE_CHECK, check) is Ok,
    ensures
        ({
            let wanted = connector::staged(
                check,
                c.brightness,
                connector::property_count(check),
            ).0;
            let checked = c.after(req::SET_STATE_CHECK, check).with_status(status::OK);
            let committed = checked.after(req::SET_STATE_COMMIT, commit);
            &&& c.commands(req::SET_STATE_CHECK, check) == Ok::<Seq<Command>, u8>(seq![])
            &&& checked.brightness == c.brightness
            &&& committed.brightness == wanted
            &&& committed.enabled == c.enabled
            &&& checked.commands(req::SET_STATE_COMMIT, commit) == Ok::<Seq<Command>, u8>(
                if c.enabled && wanted != c.brightness {
                    seq![Command::Brightness(wanted)]
                } else {
                    seq![]
                },
            )
            &&& committed.commands(req::SET_STATE_COMMIT, again) == Ok::<Seq<Command>, u8>(seq![])
            &&& committed.after(req::SET_STATE_COMMIT, again) == committed
        }),
{
}

/// What a commit comes to is what the sink says to the brightness; without one
/// the sink is not asked, and the commit succeeds.
pub proof fn commits_come_to_what_the_sink_says<F: FnMut(Command) -> Result<(), u8>>(
    sink: F,
    c: Connector,
    data: Seq<u8>,
    result: Result<(), u8>,
)
    ensures
        ({
            let commands = c.commands(req::SET_STATE_COMMIT, data)->Ok_0;
            let wanted = Command::Brightness(c.pending_brightness);
            &&& c.commands(req::SET_STATE_COMMIT, data) is Ok
            &&& c.enabled && c.pending_brightness != c.brightness ==> {
                &&& protocol::ready_in_order(sink, commands) <==> call_requires(sink, (wanted,))
                &&& protocol::handed_over(sink, commands, result) <==> match result {
                    Ok(_) => protocol::accepts(sink, wanted),
                    Err(code) => protocol::refuses(sink, wanted, code),
                }
            }
            &&& !(c.enabled && c.pending_brightness != c.brightness) ==> {
                &&& protocol::ready_in_order(sink, commands)
                &&& protocol::handed_over(sink, commands, result) <==> result is Ok
            }
        }),
{
    let commands = c.commands(req::SET_STATE_COMMIT, data)->Ok_0;
    let wanted = Command::Brightness(c.pending_brightness);
    if c.enabled && c.pending_brightness != c.brightness {
        assert(commands.len() == 1);
        assert(commands[0] == wanted);
        if let Err(code) = result {
            if protocol::refuses(sink, wanted, code) {
                assert(protocol::refuses(sink, commands[0], code));
            }
        }
    }
}

/// A commit right after a check that went well applies the last brightness that
/// the check held, or keeps the one that was set. The sink is asked if that is
/// new and the display is on, and what it says is what the commit comes to. The
/// display stays on or off, and a commit after that asks nobody and succeeds.
pub proof fn commits_apply_the_last_check<F: FnMut(Command) -> Result<(), u8>>(
    sink: F,
    c: Connector,
    check: Seq<u8>,
    commit: Seq<u8>,
    result: Result<(), u8>,
    again: Seq<u8>,
)
    requires
        c.commands(req::SET_STATE_CHECK, check) is Ok,
    ensures
        ({
            let count = connector::property_count(check);
            let checked = c.after(req::SET_STATE_CHECK, check).with_status(status::OK);
            let committed = checked.after(req::SET_STATE_COMMIT, commit).with_status(
                protocol::status_of(result),
            );
            let commands = checked.commands(req::SET_STATE_COMMIT, commit)->Ok_0;
            let wanted = Command::Brightness(committed.brightness);
            &&& forall|k: int| #[trigger] is_last_brightness(check, k, count)
                ==> committed.brightness == connector::property_value(check, k)
            &&& (forall|k: int| !#[trigger] is_last_brightness(check, k, count))
                ==> committed.brightness == c.brightness
            &&& committed.enabled == c.enabled
            &&& checked.commands(req::SET_STATE_COMMIT, commit) is Ok
            &&& c.enabled && committed.brightness != c.brightness ==> {
                &&& commands == seq![wanted]
                &&& protocol::handed_over(sink, commands, result) <==> match result {
                    Ok(_) => protocol::accepts(sink, wanted),
                    Err(code) => protocol::refuses(sink, wanted, code),
                }
            }
            &&& !(c.enabled && committed.brightness != c.brightness) ==> {
                &&& commands == Seq::<Command>::empty()
                &&& protocol::handed_over(sink, commands, result) <==> result is Ok
            }
            &&& committed.commands(req::SET_STATE_COMMIT, again) == Ok::<Seq<Command>, u8>(seq![])
        }),
{
    let count = connector::property_count(check);
    let checked = c.after(req::SET_STATE_CHECK, check).with_status(status::OK);
    the_last_brightness_counts(check, c.brightness, count);
    commits_come_to_what_the_sink_says(sink, checked, commit, result);
    assert forall|k: int, j: int| #[trigger]
        is_last_brightness(check, k, count) && #[trigger] is_last_brightness(
            check,
            j,
            count,
        ) implies k == j by {}
}

/// A switch of the display asks the sink to enable or disable it, and only if
/// it takes that, to set the backlight; the first refusal is what the request
/// comes to. The connector has switched either way.
pub proof fn switches_come_to_what_the_sink_says<F: FnMut(Command) -> Result<(), u8>>(
    sink: F,
    c: Connector,
    data: Seq<u8>,
    result: Result<(), u8>,
)
    requires
        data.len() > 0,
        (data[0] != 0) != c.enabled,
    ensures
        ({
            let on = data[0] != 0;
            let commands = c.commands(req::SET_DISPLAY_ENABLE, data)->Ok_0;
            let enable = Command::Enable(on);
            let light = Command::Brightness(
                if on {
                    c.brightness
                } else {
                    0
                },
            );
            &&& c.commands(req::SET_DISPLAY_ENABLE, data) is Ok
            &&& protocol::ready_in_order(sink, commands) <==> {
                &&& call_requires(sink, (enable,))
                &&& protocol::accepts(sink, enable) ==> call_requires(sink, (light,))
            }
            &&& protocol::handed_over(sink, commands, result) <==> match result {
                Ok(_) => protocol::accepts(sink, enable) && protocol::accepts(sink, light),
                Err(code) => {
                    ||| protocol::refuses(sink, enable, code)
                    ||| protocol::accepts(sink, enable) && protocol::refuses(sink, light, code)
                },
            }
            &&& c.after(req::SET_DISPLAY_ENABLE, data) == Connector { enabled: on, ..c }
        }),
{
    let on = data[0] != 0;
    let commands = c.commands(req::SET_DISPLAY_ENABLE, data)->Ok_0;
    let enable = Command::Enable(on);
    let light = Command::Brightness(
        if on {
            c.brightness
        } else {
            0
        },
    );
    assert(commands.len() == 2);
    assert(commands[0] == enable);
    assert(commands[1] == light);
    if let Err(code) = result {
        if protocol::refuses(sink, enable, code) {
            assert(protocol::refuses(sink, commands[0], code));
        }
        if protocol::accepts(sink, enable) && protocol::refuses(sink, light, code) {
            assert(protocol::refuses(sink, commands[1], code));
        }
    }
}

/// The panel hears of an update only by `SET_BUFFER`, and of being switched
/// only by `SET_DISPLAY_ENABLE`.
pub proof fn commands_come_by_their_requests(c: Connector, request: u8, data: Seq<u8>)
    ensures
        c.commands(request, data) matches Ok(commands) ==> forall|i: int|
            0 <= i < commands.len() ==> {
                &&& #[trigger] commands[i] is Update ==> request == req::SET_BUFFER
                &&& commands[i] is Enable ==> request == req::SET_DISPLAY_ENABLE
            },
{
}

/// Switching the display to what it already is does nothing; switching it off
/// takes the backlight with it; switching it on brings back the brightness,
/// also one that was committed in the dark.
pub proof fn display_and_backlight_switch_together(
    c: Connector,
    on: Seq<u8>,
    off: Seq<u8>,
    commit: Seq<u8>,
)
    requires
        on.len() > 0 && on[0] != 0,
        off.len() > 0 && off[0] == 0,
        c.enabled,
    ensures
        ({
            let dark = c.after(req::SET_DISPLAY_ENABLE, off);
            let changed = dark.after(req::SET_STATE_COMMIT, commit);
            &&& c.commands(req::SET_DISPLAY_ENABLE, on) == Ok::<Seq<Command>, u8>(seq![])
            &&& c.after(req::SET_DISPLAY_ENABLE, on) == c
            &&& c.commands(req::SET_DISPLAY_ENABLE, off) == Ok::<Seq<Command>, u8>(
                seq![Command::Enable(false), Command::Brightness(0)],
            )
            &&& dark.commands(req::SET_DISPLAY_ENABLE, off) == Ok::<Seq<Command>, u8>(seq![])
            &&& dark.after(req::SET_DISPLAY_ENABLE, off) == dark
            &&& dark.after(req::SET_DISPLAY_ENABLE, on) == c
            &&& dark.commands(req::SET_DISPLAY_ENABLE, on) == Ok::<Seq<Command>, u8>(
                seq![Command::Enable(true), Command::Brightness(c.brightness)],
            )
            &&& dark.commands(req::SET_STATE_COMMIT, commit) == Ok::<Seq<Command>, u8>(seq![])
            &&& changed.brightness == c.pending_brightness
            &&& changed.commands(req::SET_DISPLAY_ENABLE, on) == Ok::<Seq<Command>, u8>(
                seq![Command::Enable(true), Command::Brightness(c.pending_brightness)],
            )
        }),
{
}

} // verus!
