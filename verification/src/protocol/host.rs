//! What a host makes of the device's answers, and what it can ask of it: the
//! requests by their numbers on the wire, and the data stages byte by byte.

use vstd::prelude::*;

use crate::bytes;
use crate::protocol::connector;
use crate::protocol::display;
use crate::protocol::{Command, Commands, Connector, Display, Protocol};

verus! {

/// Two bytes of a packed message as a number, low byte first.
pub open spec fn word(b: Seq<u8>, at: int) -> int {
    b[at] + 256 * b[at + 1]
}

/// Four bytes of a packed message as a number, low byte first.
pub open spec fn long(b: Seq<u8>, at: int) -> int {
    word(b, at) + 65536 * word(b, at + 2)
}

proof fn words_read_back(x: int)
    requires
        0 <= x < 65536,
    ensures
        x % 256 + 256 * (x / 256 % 256) == x,
{
}

proof fn wrapped_words_read_back(x: int)
    requires
        0 <= x,
    ensures
        x % 256 + 256 * (x / 256 % 256) == x % 65536,
{
    let a = x / 256;
    let b = a / 256;
    assert(x == 65536 * b + (256 * (a % 256) + x % 256));
    vstd::arithmetic::div_mod::lemma_fundamental_div_mod_converse(
        x,
        65536,
        b,
        256 * (a % 256) + x % 256,
    );
}

proof fn longs_read_back(x: int)
    requires
        0 <= x < 0x1_0000_0000,
    ensures
        x % 256 + 256 * (x / 256 % 256) + 65536 * (x / 65536 % 256 + 256 * (x / 0x100_0000 % 256))
            == x,
{
    let a = x / 256;
    let b = a / 256;
    assert(x / 65536 == b);
    assert(x / 0x100_0000 == b / 256);
}

/// The descriptor tells the host the magic number and version 1, no flags, the
/// compression and the largest update that the display takes, and one size: the
/// least and the greatest width are the display's, and so are the heights.
pub proof fn descriptors_tell_the_size(
    p: &mut Protocol,
    value: u16,
    buf: &mut [u8],
    r: Result<usize, u8>,
)
    requires
        call_ensures(Protocol::control_in, (p, 0x01u8, value, buf), r),
        old(buf)@.len() >= 30,
    ensures
        r == Ok::<usize, u8>(30),
        long(final(buf)@, 0) == 0x1d50_614d,
        final(buf)@[4] == 1,
        long(final(buf)@, 5) == 0,
        final(buf)@[9] == old(p)@.display.compression,
        long(final(buf)@, 10) == old(p)@.display.max_buffer_size,
        long(final(buf)@, 14) == old(p)@.display.width,
        long(final(buf)@, 18) == old(p)@.display.width,
        long(final(buf)@, 22) == old(p)@.display.height,
        long(final(buf)@, 26) == old(p)@.display.height,
        final(buf)@.len() == old(buf)@.len(),
        final(buf)@.skip(30) == old(buf)@.skip(30),
        final(p)@ == (Connector { status: 0, ..old(p)@ }),
{
    let d = old(p)@.display;
    longs_read_back(0x1d50_614d);
    longs_read_back(d.max_buffer_size as int);
    longs_read_back(d.width as int);
    longs_read_back(d.height as int);
}

/// The one mode has the display's size, which lies within the bounds of the
/// descriptor. Sync comes behind the picture and ends before the line or frame
/// does, and the clock draws sixty frames a second. The mode is the preferred
/// one.
pub proof fn modes_have_the_size(p: &mut Protocol, buf: &mut [u8], r: Result<usize, u8>)
    requires
        call_ensures(Protocol::control_in, (p, 0x55u8, 0u16, buf), r),
        old(buf)@.len() >= 24,
        old(p)@.display.width + 2 <= 0xffff,
        old(p)@.display.height + 2 <= 0xffff,
        (old(p)@.display.width + 10) * (old(p)@.display.height + 10) * 60 <= u32::MAX,
    ensures
        r == Ok::<usize, u8>(24),
        ({
            let m = final(buf)@;
            let d = old(p)@.display;
            let frame = (d.width + 10) * (d.height + 10);
            &&& word(m, 4) == d.width
            &&& word(m, 6) == d.width + 1
            &&& word(m, 8) == d.width + 2
            &&& word(m, 10) == (d.width + 10) % 0x1_0000
            &&& word(m, 12) == d.height
            &&& word(m, 14) == d.height + 1
            &&& word(m, 16) == d.height + 2
            &&& word(m, 18) == (d.height + 10) % 0x1_0000
            &&& d.width + 10 <= 0xffff ==> word(m, 4) < word(m, 6) < word(m, 8) < word(m, 10)
            &&& d.height + 10 <= 0xffff ==> word(m, 12) < word(m, 14) < word(m, 16) < word(m, 18)
            &&& long(m, 0) * 1000 <= frame * 60 < (long(m, 0) + 1) * 1000
            &&& long(m, 20) == 0x400
        }),
        final(buf)@.skip(24) == old(buf)@.skip(24),
        final(p)@ == (Connector { status: 0, ..old(p)@ }),
{
    let d = old(p)@.display;
    let (w, h) = (d.width as int, d.height as int);
    let rate = (w + 10) * (h + 10) * 60;
    assert(rate >= 0) by (nonlinear_arith)
        requires
            rate == (w + 10) * (h + 10) * 60,
            w >= 0,
            h >= 0,
    ;
    longs_read_back(rate / 1000);
    longs_read_back(0x400);
    words_read_back(w);
    words_read_back(w + 1);
    words_read_back(w + 2);
    wrapped_words_read_back(w + 10);
    words_read_back(h);
    words_read_back(h + 1);
    words_read_back(h + 2);
    wrapped_words_read_back(h + 10);
}

/// What the host is told of a size it can ask for: the mode lies within the
/// least and the greatest size of the descriptor, which leave it no other.
pub proof fn the_mode_is_within_the_bounds(
    p: &mut Protocol,
    q: &mut Protocol,
    value: u16,
    described: &mut [u8],
    mode: &mut [u8],
    r: Result<usize, u8>,
    s: Result<usize, u8>,
)
    requires
        call_ensures(Protocol::control_in, (p, 0x01u8, value, described), r),
        call_ensures(Protocol::control_in, (q, 0x55u8, 0u16, mode), s),
        old(p)@.display == old(q)@.display,
        old(described)@.len() >= 30,
        old(mode)@.len() >= 24,
        old(p)@.display.width + 2 <= 0xffff,
        old(p)@.display.height + 2 <= 0xffff,
        (old(p)@.display.width + 10) * (old(p)@.display.height + 10) * 60 <= u32::MAX,
    ensures
        long(final(described)@, 14) <= word(final(mode)@, 4) <= long(final(described)@, 18),
        long(final(described)@, 22) <= word(final(mode)@, 12) <= long(final(described)@, 26),
        long(final(described)@, 14) == long(final(described)@, 18),
        long(final(described)@, 22) == long(final(described)@, 26),
{
    let d = old(p)@.display;
    longs_read_back(d.width as int);
    longs_read_back(d.height as int);
    words_read_back(d.width as int);
    words_read_back(d.height as int);
}

/// The connector has one property, the brightness of its backlight as a 64-bit
/// number.
pub proof fn brightness_is_told(p: &mut Protocol, buf: &mut [u8], r: Result<usize, u8>)
    requires
        call_ensures(Protocol::control_in, (p, 0x51u8, 0u16, buf), r),
        old(buf)@.len() >= 10,
    ensures
        r == Ok::<usize, u8>(10),
        word(final(buf)@, 0) == 12,
        long(final(buf)@, 2) == old(p)@.brightness,
        long(final(buf)@, 6) == 0,
        final(buf)@.skip(10) == old(buf)@.skip(10),
        final(p)@ == (Connector { status: 0, ..old(p)@ }),
{
    longs_read_back(old(p)@.brightness as int);
}

/// Among the other answers: the status that the request before left, which stays;
/// RGB565 as the one format; no properties of the display; one connector, a panel
/// without flags, that is connected and has no EDID.
pub proof fn short_answers(
    p: &mut Protocol,
    request: u8,
    value: u16,
    buf: &mut [u8],
    r: Result<usize, u8>,
)
    requires
        call_ensures(Protocol::control_in, (p, request, value, buf), r),
        old(buf)@.len() >= 5,
    ensures
        request == 0x00 ==> {
            &&& r == Ok::<usize, u8>(1)
            &&& final(buf)@ == seq![old(p)@.status] + old(buf)@.skip(1)
            &&& final(p)@ == old(p)@
        },
        request == 0x40 ==> r == Ok::<usize, u8>(1) && final(buf)@ == seq![0x40u8] + old(
            buf,
        )@.skip(1),
        request == 0x41 ==> r == Ok::<usize, u8>(0) && final(buf)@ == old(buf)@,
        request == 0x50 ==> r == Ok::<usize, u8>(5) && final(buf)@ == seq![0u8, 0, 0, 0, 0] + old(
            buf,
        )@.skip(5),
        request == 0x54 && value == 0 ==> r == Ok::<usize, u8>(1) && final(buf)@ == seq![1u8]
            + old(buf)@.skip(1),
        request == 0x56 && value == 0 ==> r == Ok::<usize, u8>(0) && final(buf)@ == old(buf)@,
        request == 0x40 || request == 0x41 || request == 0x50 || ((request == 0x54 || request
            == 0x56) && value == 0) ==> final(p)@ == (Connector { status: 0, ..old(p)@ }),
{
    assert(Seq::<u8>::empty() + old(buf)@.skip(0) =~= old(buf)@);
}

/// A query for a connector that there is not stalls with "invalid parameter",
/// and one that is unknown with "request not supported". The status remembers
/// it, and nothing else changes.
pub proof fn other_queries_stall(
    p: &mut Protocol,
    request: u8,
    value: u16,
    buf: &mut [u8],
    r: Result<usize, u8>,
)
    requires
        call_ensures(Protocol::control_in, (p, request, value, buf), r),
    ensures
        (request == 0x51 || request == 0x54 || request == 0x55 || request == 0x56) && value != 0
            ==> {
            &&& r == Err::<usize, u8>(4)
            &&& final(buf)@ == old(buf)@
            &&& final(p)@ == (Connector { status: 4, ..old(p)@ })
        },
        request != 0x00 && request != 0x01 && request != 0x40 && request != 0x41 && request != 0x50
            && request != 0x51 && request != 0x54 && request != 0x55 && request != 0x56 ==> {
            &&& r == Err::<usize, u8>(2)
            &&& final(buf)@ == old(buf)@
            &&& final(p)@ == (Connector { status: 2, ..old(p)@ })
        },
{
}

/// The message announces an update that the display can take: on the panel, two
/// bytes for each of its pixels, no more of them than fit, and raw or, where the
/// display knows LZ4, in no more bytes than raw.
pub open spec fn can_be_announced(d: Display, m: Seq<u8>) -> bool {
    &&& 0 < long(m, 8) <= d.width - long(m, 0)
    &&& 0 < long(m, 12) <= d.height - long(m, 4)
    &&& long(m, 16) == 2 * (long(m, 8) * long(m, 12))
    &&& d.max_buffer_size > 0 ==> long(m, 16) <= d.max_buffer_size
    &&& m[20] == 0 || (m[20] == 1 && d.compression % 2 == 1 && 1 <= long(m, 21) <= long(m, 16))
}

/// An announcement is let through exactly if it can be taken, and then the panel
/// hears of the update that its fields name. One that is too short is a protocol
/// error. Neither leaves a trace in the connector.
pub proof fn announcements_are_taken_as_meant(
    p: &mut Protocol,
    data: &[u8],
    r: Result<Commands, u8>,
)
    requires
        call_ensures(Protocol::begin, (p, 0x60u8, data), r),
    ensures
        final(p)@ == old(p)@,
        data@.len() < 25 ==> r is Err && r->Err_0 == 3,
        data@.len() >= 25 && !can_be_announced(old(p)@.display, data@) ==> r is Err && r->Err_0
            == 4,
        data@.len() >= 25 && can_be_announced(old(p)@.display, data@) ==> {
            &&& r is Ok
            &&& r->Ok_0@.len() == 1
            &&& r->Ok_0@[0] is Update
            &&& ({
                let rect = r->Ok_0@[0]->Update_0;
                &&& rect.x == long(data@, 0)
                &&& rect.y == long(data@, 4)
                &&& rect.width == long(data@, 8)
                &&& rect.height == long(data@, 12)
                &&& rect.length == long(data@, 16)
                &&& rect.payload == if data@[20] == 0 {
                    long(data@, 16)
                } else {
                    long(data@, 21)
                }
                &&& rect.compressed == (data@[20] == 1)
            })
        },
{
    let m = data@;
    let (w, h) = (long(m, 8), long(m, 12));
    assert(w * h * 2 == 2 * (w * h)) by (nonlinear_arith);
}

/// The number of property `k` behind a state, and the low half of its value.
pub open spec fn number_of(m: Seq<u8>, k: int) -> int {
    word(m, 26 + 10 * k)
}

pub open spec fn value_of(m: Seq<u8>, k: int) -> int {
    long(m, 28 + 10 * k)
}

/// Behind the 26 bytes of a state stand so many whole properties of ten bytes.
pub open spec fn holds(m: Seq<u8>, n: int) -> bool {
    10 * n <= m.len() - 26 < 10 * n + 10
}

/// The state asks for the display's size, RGB565 and the one connector.
pub open spec fn asks_for(d: Display, m: Seq<u8>) -> bool {
    word(m, 4) == d.width && word(m, 12) == d.height && m[24] == 0x40 && m[25] == 0
}

/// No brightness among the first `n` properties is over 100.
pub open spec fn all_in_range(m: Seq<u8>, n: int) -> bool {
    forall|k: int| 0 <= k < n && #[trigger] number_of(m, k) == 12 ==> value_of(m, k) <= 100
}

/// None of the properties from `i` up to `n` is a brightness.
pub open spec fn none_from(m: Seq<u8>, i: int, n: int) -> bool {
    forall|k: int| i <= k < n ==> #[trigger] number_of(m, k) != 12
}

/// Property `bad` is the first brightness that is over 100.
pub open spec fn first_out_of_range(m: Seq<u8>, bad: int, n: int) -> bool {
    &&& 0 <= bad < n
    &&& number_of(m, bad) == 12
    &&& value_of(m, bad) > 100
    &&& all_in_range(m, bad)
}

/// A state with `n` properties is let through exactly if it asks for what the
/// display has and holds no brightness over 100. It is then staged: the last
/// brightness that it holds, or the one that is set. Nothing of it reaches the
/// panel yet. One that is too short is a protocol error, and stages nothing.
pub proof fn states_are_staged(p: &mut Protocol, data: &[u8], r: Result<Commands, u8>, n: int)
    requires
        call_ensures(Protocol::begin, (p, 0x61u8, data), r),
        data@.len() >= 26 ==> holds(data@, n),
    ensures
        data@.len() < 26 ==> r is Err && r->Err_0 == 3,
        data@.len() >= 26 ==> {
            &&& r is Ok <==> asks_for(old(p)@.display, data@) && all_in_range(data@, n)
            &&& r is Ok ==> r->Ok_0@.len() == 0
            &&& r is Err ==> r->Err_0 == 4
        },
        data@.len() < 26 || !asks_for(old(p)@.display, data@) ==> final(p)@ == old(p)@,
        final(p)@ == (Connector { pending_brightness: final(p)@.pending_brightness, ..old(p)@ }),
        r is Ok && none_from(data@, 0, n) ==> final(p)@.pending_brightness == old(p)@.brightness,
        r is Ok ==> forall|k: int|
            0 <= k < n && #[trigger] number_of(data@, k) == 12 && none_from(data@, k + 1, n)
                ==> final(p)@.pending_brightness == value_of(data@, k),
        // One that is refused for a brightness stages what came before that.
        data@.len() >= 26 && asks_for(old(p)@.display, data@) ==> forall|bad: int|
            #[trigger] first_out_of_range(data@, bad, n) ==> {
                &&& none_from(data@, 0, bad) ==> final(p)@.pending_brightness
                    == old(p)@.brightness
                &&& forall|k: int|
                    0 <= k < bad && #[trigger] number_of(data@, k) == 12 && none_from(
                        data@,
                        k + 1,
                        bad,
                    ) ==> final(p)@.pending_brightness == value_of(data@, k)
            },
{
    let m = data@;
    if m.len() >= 26 {
        assert(connector::property_count(m) == n);
        staging_needs_a_percentage(m, old(p)@.brightness, n as nat);
        if asks_for(old(p)@.display, m) {
            assert forall|bad: int| #[trigger] first_out_of_range(m, bad, n) implies {
                &&& none_from(m, 0, bad) ==> final(p)@.pending_brightness == old(p)@.brightness
                &&& forall|k: int|
                    0 <= k < bad && #[trigger] number_of(m, k) == 12 && none_from(m, k + 1, bad)
                        ==> final(p)@.pending_brightness == value_of(m, k)
            } by {
                staging_stops(m, old(p)@.brightness, bad, n);
            }
        }
        if r is Ok {
            if none_from(m, 0, n) {
                staging_keeps(m, old(p)@.brightness, 0, n as nat);
            }
            assert forall|k: int|
                0 <= k < n && #[trigger] number_of(m, k) == 12 && none_from(
                    m,
                    k + 1,
                    n,
                ) implies final(p)@.pending_brightness == value_of(m, k) by {
                staging_keeps(m, old(p)@.brightness, (k + 1) as nat, n as nat);
                staging_needs_a_percentage(m, old(p)@.brightness, (k + 1) as nat);
                assert(all_in_range(m, k + 1));
                assert(connector::property_id(m, k) == number_of(m, k));
                assert(connector::property_value(m, k) == value_of(m, k));
            }
        }
    }
}

proof fn staging_stops(m: Seq<u8>, brightness: u8, bad: int, n: int)
    requires
        first_out_of_range(m, bad, n),
    ensures
        ({
            let staged = connector::staged(m, brightness, n as nat).0;
            &&& none_from(m, 0, bad) ==> staged == brightness
            &&& forall|k: int|
                0 <= k < bad && #[trigger] number_of(m, k) == 12 && none_from(m, k + 1, bad)
                    ==> staged == value_of(m, k)
        }),
{
    let staged = connector::staged(m, brightness, n as nat).0;
    staging_needs_a_percentage(m, brightness, bad as nat);
    assert(connector::property_id(m, bad) == number_of(m, bad));
    assert(connector::property_value(m, bad) == value_of(m, bad));
    connector::staged_stops(m, brightness, (bad + 1) as nat, n as nat);
    assert(staged == connector::staged(m, brightness, bad as nat).0);
    if none_from(m, 0, bad) {
        staging_keeps(m, brightness, 0, bad as nat);
    }
    assert forall|k: int|
        0 <= k < bad && #[trigger] number_of(m, k) == 12 && none_from(m, k + 1, bad) implies staged
        == value_of(m, k) by {
        staging_keeps(m, brightness, (k + 1) as nat, bad as nat);
        staging_needs_a_percentage(m, brightness, (k + 1) as nat);
        assert(all_in_range(m, k + 1));
        assert(connector::property_id(m, k) == number_of(m, k));
        assert(connector::property_value(m, k) == value_of(m, k));
    }
}

proof fn staging_needs_a_percentage(m: Seq<u8>, brightness: u8, n: nat)
    ensures
        connector::staged(m, brightness, n).1 <==> all_in_range(m, n as int),
    decreases n,
{
    if n > 0 {
        staging_needs_a_percentage(m, brightness, (n - 1) as nat);
        assert(connector::property_id(m, n - 1) == number_of(m, n - 1));
        assert(connector::property_value(m, n - 1) == value_of(m, n - 1));
    }
}

proof fn staging_keeps(m: Seq<u8>, brightness: u8, i: nat, n: nat)
    requires
        i <= n,
        none_from(m, i as int, n as int),
    ensures
        connector::staged(m, brightness, n) == connector::staged(m, brightness, i),
    decreases n,
{
    if i < n {
        staging_keeps(m, brightness, i, (n - 1) as nat);
        assert(connector::property_id(m, n - 1) == number_of(m, n - 1));
    }
}

/// A commit applies what is staged. The panel hears of it if that is new and the
/// display is on.
pub proof fn commits_apply_what_is_staged(p: &mut Protocol, data: &[u8], r: Result<Commands, u8>)
    requires
        call_ensures(Protocol::begin, (p, 0x62u8, data), r),
    ensures
        r is Ok,
        final(p)@ == (Connector { brightness: old(p)@.pending_brightness, ..old(p)@ }),
        old(p)@.enabled && old(p)@.pending_brightness != old(p)@.brightness ==> r->Ok_0@ == seq![
            Command::Brightness(old(p)@.pending_brightness),
        ],
        !old(p)@.enabled || old(p)@.pending_brightness == old(p)@.brightness ==> r->Ok_0@.len()
            == 0,
{
}

/// The display is switched by the first byte, and the backlight with it: dark
/// when off, the brightness that is set when on. Switching to what it is already
/// reaches nobody, and so do the other two requests that the device knows. An
/// empty message is a protocol error, and what is unknown is not supported.
pub proof fn switches_and_the_rest(
    p: &mut Protocol,
    request: u8,
    data: &[u8],
    r: Result<Commands, u8>,
)
    requires
        call_ensures(Protocol::begin, (p, request, data), r),
        request < 0x60 || request > 0x62,
    ensures
        request == 0x64 && data@.len() == 0 ==> r is Err && r->Err_0 == 3 && final(p)@ == old(p)@,
        request == 0x64 && data@.len() > 0 ==> {
            &&& r is Ok
            &&& final(p)@ == (Connector { enabled: data@[0] > 0, ..old(p)@ })
            &&& old(p)@.enabled == (data@[0] > 0) ==> r->Ok_0@.len() == 0
            &&& !old(p)@.enabled && data@[0] > 0 ==> r->Ok_0@ == seq![
                Command::Enable(true),
                Command::Brightness(old(p)@.brightness),
            ]
            &&& old(p)@.enabled && data@[0] == 0 ==> r->Ok_0@ == seq![
                Command::Enable(false),
                Command::Brightness(0),
            ]
        },
        request == 0x63 || request == 0x53 ==> r is Ok && r->Ok_0@.len() == 0 && final(p)@
            == old(p)@,
        request != 0x53 && request != 0x63 && request != 0x64 ==> r is Err && r->Err_0 == 2
            && final(p)@ == old(p)@,
{
}

/// How a request went is what the status says then: 0 if it went well, and
/// otherwise the code that it stalls with.
pub proof fn the_status_says_how_it_went(p: &mut Protocol, result: Result<(), u8>, r: Result<(), u8>)
    requires
        call_ensures(Protocol::finish, (p, result), r),
    ensures
        r == result,
        result is Ok ==> final(p)@ == (Connector { status: 0, ..old(p)@ }),
        result is Err ==> final(p)@ == (Connector { status: result->Err_0, ..old(p)@ }),
{
}

/// The connector starts bright and on, with nothing to complain of; a bus reset
/// only clears the status.
pub proof fn the_connector_starts_bright_and_on(display: Display, p: Protocol, q: &mut Protocol)
    requires
        call_ensures(Protocol::new, (display,), p),
        call_ensures(Protocol::reset, (q,), ()),
    ensures
        p@ == (Connector {
            display,
            status: 0,
            brightness: 100,
            pending_brightness: 100,
            enabled: true,
        }),
        final(q)@ == (Connector { status: 0, ..old(q)@ }),
{
}

/// A display starts with raw updates of any size; LZ4 is bit 0 of what it takes,
/// and comes with a limit. A frame has two bytes for each pixel.
pub proof fn displays_are_made(
    width: u16,
    height: u16,
    raw: Display,
    limit: u32,
    packed: Display,
    frame: usize,
)
    requires
        call_ensures(Display::new, (width, height), raw),
        call_ensures(Display::with_lz4, (raw, limit), packed),
        call_ensures(Display::frame_bytes, (&packed,), frame),
    ensures
        raw.width == width && raw.height == height,
        raw.compression == 0 && raw.max_buffer_size == 0,
        packed.width == width && packed.height == height,
        packed.compression == 1 && packed.max_buffer_size == limit,
        frame == 2 * (width * height),
{
    let (w, h) = (width as int, height as int);
    assert(w * h * 2 == 2 * (w * h)) by (nonlinear_arith);
}

/// The host finds the device by its two numbers, of which the magic number is made,
/// and sends packets of 64 bytes.
pub proof fn the_device_is_known_by_its_numbers()
    ensures
        crate::protocol::USB_VID == 0x1d50,
        crate::protocol::USB_PID == 0x614d,
        crate::protocol::MAGIC == 0x1_0000 * crate::protocol::USB_VID + crate::protocol::USB_PID,
        crate::protocol::BULK_PACKET_SIZE == 64,
{
}

/// What the connector tells the firmware of itself.
pub proof fn the_firmware_is_told(
    p: Protocol,
    status: u8,
    percent: u8,
    on: bool,
    display: &Display,
)
    requires
        call_ensures(Protocol::status, (&p,), status),
        call_ensures(Protocol::brightness, (&p,), percent),
        call_ensures(Protocol::enabled, (&p,), on),
        call_ensures(Protocol::display, (&p,), display),
    ensures
        status == p@.status,
        percent == p@.brightness,
        percent <= 100,
        on == p@.enabled,
        *display == p@.display,
{
}

/// The sink took this command when it was handed over.
pub open spec fn took<F: FnMut(Command) -> Result<(), u8>>(sink: F, c: Command) -> bool {
    exists|answer: Result<(), u8>| #[trigger] call_ensures(sink, (c,), answer) && answer is Ok
}

/// A request hands its commands to the sink one after the other. It goes well if
/// the sink takes them all, and otherwise comes to what the sink says to the first
/// that it refuses; one that is refused already asks nobody. The status tells which.
pub proof fn the_sink_decides<F: FnMut(Command) -> Result<(), u8>>(
    p: &mut Protocol,
    request: u8,
    data: &[u8],
    sink: F,
    r: Result<(), u8>,
    q: &mut Protocol,
    s: Result<Commands, u8>,
)
    requires
        call_ensures(Protocol::control_out::<F>, (p, request, data, sink), r),
        call_ensures(Protocol::begin, (q, request, data), s),
        old(p)@ == old(q)@,
    ensures
        s is Err ==> r == Err::<(), u8>(s->Err_0),
        s is Ok && r is Ok ==> forall|i: int|
            0 <= i < s->Ok_0@.len() ==> took(sink, #[trigger] s->Ok_0@[i]),
        s is Ok && r is Err ==> exists|i: int|
            {
                &&& 0 <= i < s->Ok_0@.len()
                &&& call_ensures(sink, (#[trigger] s->Ok_0@[i],), r)
                &&& forall|j: int| 0 <= j < i ==> took(sink, #[trigger] s->Ok_0@[j])
            },
        s is Ok && s->Ok_0@.len() == 0 ==> r is Ok,
        final(p)@ == (Connector {
            status: if r is Ok {
                0
            } else {
                r->Err_0
            },
            ..final(q)@
        }),
{
    if let Ok(commands) = s {
        let all = commands@;
        if r is Ok {
            assert forall|i: int| 0 <= i < all.len() implies took(sink, #[trigger] all[i]) by {
                assert(crate::protocol::accepts(sink, all[i]));
            }
        } else {
            let code = r->Err_0;
            let i = choose|i: int|
                {
                    &&& 0 <= i < all.len()
                    &&& crate::protocol::refuses(sink, #[trigger] all[i], code)
                    &&& forall|j: int|
                        0 <= j < i ==> crate::protocol::accepts(sink, #[trigger] all[j])
                };
            assert(call_ensures(sink, (all[i],), r));
            assert forall|j: int| 0 <= j < i implies took(sink, #[trigger] all[j]) by {
                assert(crate::protocol::accepts(sink, all[j]));
            }
        }
    }
}

/// A display writes its own descriptor with one size, and its one mode with that
/// size.
#[verifier::rlimit(40)]
pub proof fn displays_describe_themselves(
    d: Display,
    a: &mut [u8],
    n: usize,
    b: &mut [u8],
    m: usize,
)
    requires
        call_ensures(Display::descriptor, (&d, a), n),
        call_ensures(Display::mode, (&d, b), m),
        old(a)@.len() >= 30,
        old(b)@.len() >= 24,
    ensures
        n == 30,
        m == 24,
        final(a)@[9] == d.compression,
        long(final(a)@, 10) == d.max_buffer_size,
        long(final(a)@, 14) == d.width && long(final(a)@, 18) == d.width,
        long(final(a)@, 22) == d.height && long(final(a)@, 26) == d.height,
        word(final(b)@, 4) == d.width,
        word(final(b)@, 12) == d.height,
{
    bytes::written_at_front(old(a)@, final(a)@, display::descriptor_bytes(d));
    bytes::written_at_front(old(b)@, final(b)@, display::mode_bytes(d));
    longs_read_back(d.max_buffer_size as int);
    longs_read_back(d.width as int);
    longs_read_back(d.height as int);
    words_read_back(d.width as int);
    words_read_back(d.height as int);
}

/// A property is its number and its value, which takes eight bytes.
pub proof fn properties_are_written(buf: &mut [u8], prop: u16, value: u64, n: usize)
    requires
        call_ensures(display::property, (buf, prop, value), n),
        old(buf)@.len() >= 10,
    ensures
        n == 10,
        word(final(buf)@, 0) == prop,
        long(final(buf)@, 2) + 0x1_0000_0000 * long(final(buf)@, 6) == value,
{
    bytes::written_at_front(old(buf)@, final(buf)@, display::property_bytes(prop, value));
    words_read_back(prop as int);
    longs_read_back(value as int % 0x1_0000_0000);
    longs_read_back(value as int / 0x1_0000_0000);
}

} // verus!
