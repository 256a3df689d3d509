//! When the display shows what, and how it is spoken to.

use vstd::prelude::*;
use vstd::slice::slice_subrange;
use vstd::string::*;

use crate::binary64::Binary64;
use crate::framebuffer::{Framebuffer, FRAMEBUFFER_SIZE};
use crate::number::{parse_unsigned, unsigned};
use crate::pin_map::PinMap;
use crate::pwm::PinHold;
use crate::quote::{quote, quoted};
use crate::system::STATUS_PAGE_COUNT;
use crate::text::{chars_of, has_prefix, maybe_text, starts_with, trim, trimmed};

verus! {

/// The bus of the display where none is given.
pub const DEFAULT_I2C_DEVICE: &'static str = "/dev/i2c-1";

/// The address of the display on its bus.
pub const SSD1306_ADDRESS: u64 = 0x3c;

/// The name under which the daemon asks for the line that resets the display.
pub const OLED_CONSUMER: &'static str = "hat_oled_reset";

/// The time between two looks at the schedule, in nanoseconds.
pub const THREAD_POLL_INTERVAL: u128 = 100_000_000;

/// The time between two renderings where none is given, in nanoseconds.
pub const DEFAULT_REFRESH_INTERVAL: u128 = 10_000_000_000;

/// The shortest time between two renderings, in nanoseconds.
pub const MIN_REFRESH_INTERVAL: u128 = 250_000_000;

/// What the display is to do.
#[derive(Debug, Clone, Copy, PartialEq, Eq, Structural)]
pub enum OledUpdate {
    /// Nothing.
    Nothing,
    /// Go dark.
    Blank,
    /// Show a page; `wake` says that the display is dark.
    Render { page: usize, wake: bool },
}

/// What the display shows, and when that changes. Times are in nanoseconds.
#[derive(Debug, Clone, Copy, PartialEq, Eq, Structural)]
pub struct OledSchedule {
    pub page: usize,
    pub blank: bool,
    pub last_manual_event: u128,
    pub next_refresh: u128,
}

/// What is known at a look at the schedule.
pub struct OledLook {
    pub now: u128,
    pub manual_slide: bool,
    pub auto_slide: bool,
    pub refresh_interval: u128,
    pub sleep_after: Option<u128>,
}

/// The page after a page; after the last comes the first.
pub open spec fn page_after(page: usize) -> usize {
    ((page + 1) % 3) as usize
}

impl OledSchedule {
    /// Whether there is such a page.
    pub open spec fn on_page(self) -> bool {
        self.page < STATUS_PAGE_COUNT
    }

    /// Whether nobody has touched the button for the given time.
    pub open spec fn idle(self, now: u128, sleep_after: Option<u128>) -> bool {
        match sleep_after {
            Some(sleep) => now - self.last_manual_event >= sleep || sleep == 0,
            None => false,
        }
    }

    /// Whether a page is to be shown, so that the next refresh has to be set.
    pub open spec fn renders(self, now: u128, manual_slide: bool, sleep_after: Option<u128>) -> bool {
        manual_slide || (!self.idle(now, sleep_after) && now >= self.next_refresh)
    }

    /// The schedule after a look at it, and what the display is to do.
    pub open spec fn updated(
        self,
        now: u128,
        manual_slide: bool,
        auto_slide: bool,
        refresh_interval: u128,
        sleep_after: Option<u128>,
    ) -> (OledSchedule, OledUpdate) {
        let next_refresh = (now + refresh_interval) as u128;
        if manual_slide {
            let page = if self.blank {
                self.page
            } else {
                page_after(self.page)
            };
            (
                OledSchedule { page, blank: false, last_manual_event: now, next_refresh },
                OledUpdate::Render { page, wake: self.blank },
            )
        } else if self.idle(now, sleep_after) {
            if self.blank {
                (self, OledUpdate::Nothing)
            } else {
                (OledSchedule { blank: true, ..self }, OledUpdate::Blank)
            }
        } else if now >= self.next_refresh {
            let page = if auto_slide {
                page_after(self.page)
            } else {
                self.page
            };
            (
                OledSchedule { page, next_refresh, ..self },
                OledUpdate::Render { page, wake: false },
            )
        } else {
            (self, OledUpdate::Nothing)
        }
    }

    /// The schedule after a look at it, and what the display is to do.
    pub open spec fn looked_at(self, look: OledLook) -> (OledSchedule, OledUpdate) {
        self.updated(
            look.now,
            look.manual_slide,
            look.auto_slide,
            look.refresh_interval,
            look.sleep_after,
        )
    }

    /// The schedule after a row of looks at it.
    pub open spec fn after(self, looks: Seq<OledLook>) -> OledSchedule
        decreases looks.len(),
    {
        if looks.len() == 0 {
            self
        } else {
            self.after(looks.drop_last()).looked_at(looks.last()).0
        }
    }

    /// A schedule that starts on the first page.
    pub fn new(now: u128, refresh_interval: u128) -> (r: OledSchedule)
        requires
            now + refresh_interval <= u128::MAX,
        ensures
            r == (OledSchedule {
                page: 0,
                blank: false,
                last_manual_event: now,
                next_refresh: (now + refresh_interval) as u128,
            }),
            r.on_page(),
    {
        OledSchedule {
            page: 0,
            blank: false,
            last_manual_event: now,
            next_refresh: now + refresh_interval,
        }
    }

    /// Looks at the schedule.
    pub fn update(
        &mut self,
        now: u128,
        manual_slide: bool,
        auto_slide: bool,
        refresh_interval: u128,
        sleep_after: Option<u128>,
    ) -> (r: OledUpdate)
        requires
            old(self).page < usize::MAX,
            old(self).renders(now, manual_slide, sleep_after) ==> now + refresh_interval
                <= u128::MAX,
        ensures
            (*final(self), r) == old(self).updated(
                now,
                manual_slide,
                auto_slide,
                refresh_interval,
                sleep_after,
            ),
            old(self).on_page() ==> final(self).on_page(),
    {
        if manual_slide {
            self.last_manual_event = now;
            let wake = self.blank;
            self.blank = false;
            if !wake {
                self.page = (self.page + 1) % STATUS_PAGE_COUNT;
            }
            self.next_refresh = now + refresh_interval;
            return OledUpdate::Render { page: self.page, wake };
        }
        let idle_time: u128 = if now >= self.last_manual_event {
            now - self.last_manual_event
        } else {
            0
        };
        if let Some(sleep) = sleep_after {
            if idle_time >= sleep {
                if !self.blank {
                    self.blank = true;
                    return OledUpdate::Blank;
                }
                return OledUpdate::Nothing;
            }
        }
        if now >= self.next_refresh {
            if auto_slide {
                self.page = (self.page + 1) % STATUS_PAGE_COUNT;
            }
            self.next_refresh = now + refresh_interval;
            return OledUpdate::Render { page: self.page, wake: false };
        }
        OledUpdate::Nothing
    }
}

/// A touch of the button wakes a dark display on the page that it last showed,
/// and makes one that is awake show the next page.
pub proof fn touch_wakes_or_slides(
    s: OledSchedule,
    now: u128,
    auto_slide: bool,
    refresh_interval: u128,
    sleep_after: Option<u128>,
)
    ensures
        ({
            let (next, update) = s.updated(now, true, auto_slide, refresh_interval, sleep_after);
            &&& !next.blank
            &&& next.page == if s.blank {
                s.page
            } else {
                page_after(s.page)
            }
            &&& update == OledUpdate::Render { page: next.page, wake: s.blank }
        }),
{
}

/// After the idle time without a touch the display is dark, and it goes dark
/// once.
pub proof fn idle_display_goes_dark(
    s: OledSchedule,
    now: u128,
    auto_slide: bool,
    refresh_interval: u128,
    sleep: u128,
)
    requires
        now - s.last_manual_event >= sleep,
    ensures
        ({
            let (next, update) = s.updated(now, false, auto_slide, refresh_interval, Some(sleep));
            &&& next.blank && next.page == s.page
            &&& update == if s.blank {
                OledUpdate::Nothing
            } else {
                OledUpdate::Blank
            }
        }),
{
}

/// A display that has gone dark stays dark and on its page, however often the
/// schedule is looked at, as long as the button is not touched. A touch then
/// wakes it on the page that it showed before.
pub proof fn dark_display_stays_dark(
    s: OledSchedule,
    blanking: OledLook,
    sleep: u128,
    looks: Seq<OledLook>,
    touch: OledLook,
)
    requires
        blanking.sleep_after == Some(sleep),
        s.looked_at(blanking).1 is Blank,
        forall|i: int|
            0 <= i < looks.len() ==> (#[trigger] looks[i]).now >= blanking.now
                && !looks[i].manual_slide && looks[i].sleep_after == Some(sleep),
        touch.manual_slide,
    ensures
        ({
            let dark = s.looked_at(blanking).0;
            &&& dark.blank && dark.page == s.page
            &&& dark.after(looks) == dark
            &&& forall|i: int|
                0 <= i < looks.len() ==> dark.after(looks.take(i)).looked_at(#[trigger] looks[i])
                    == (dark, OledUpdate::Nothing)
            &&& dark.after(looks).looked_at(touch).1 == OledUpdate::Render {
                page: s.page,
                wake: true,
            }
        }),
    decreases looks.len(),
{
    let dark = s.looked_at(blanking).0;
    if looks.len() > 0 {
        let fewer = looks.drop_last();
        dark_display_stays_dark(s, blanking, sleep, fewer, touch);
        assert forall|i: int| 0 <= i < looks.len() implies dark.after(looks.take(i)).looked_at(
            #[trigger] looks[i],
        ) == (dark, OledUpdate::Nothing) by {
            if i < fewer.len() {
                assert(fewer[i] == looks[i]);
                assert(fewer.take(i) == looks.take(i));
            } else {
                assert(looks.take(i) == fewer);
            }
        }
    }
}

/// Whatever happens, the schedule is on a page that there is, and no other page
/// is ever shown.
pub proof fn shown_pages_exist(s: OledSchedule, looks: Seq<OledLook>, look: OledLook)
    requires
        s.on_page(),
    ensures
        s.after(looks).on_page(),
        s.after(looks).looked_at(look).1 matches OledUpdate::Render { page, wake: _ } ==> page
            < STATUS_PAGE_COUNT,
    decreases looks.len(),
{
    if looks.len() > 0 {
        shown_pages_exist(s, looks.drop_last(), looks.last());
    }
}

/// Without a time to sleep the display is never dark.
pub proof fn sleepless_display_stays_awake(
    s: OledSchedule,
    now: u128,
    manual_slide: bool,
    auto_slide: bool,
    refresh_interval: u128,
)
    requires
        !s.blank,
    ensures
        ({
            let (next, update) = s.updated(now, manual_slide, auto_slide, refresh_interval, None);
            !next.blank && update != OledUpdate::Blank
        }),
{
}

/// Without automatic sliding only a touch of the button changes the page.
pub proof fn page_stays_without_sliding(
    s: OledSchedule,
    now: u128,
    refresh_interval: u128,
    sleep_after: Option<u128>,
)
    ensures
        s.updated(now, false, false, refresh_interval, sleep_after).0.page == s.page,
{
}

/// An awake display is rendered when its time has come, and not again before
/// the interval has passed.
pub proof fn renderings_keep_their_distance(
    s: OledSchedule,
    now: u128,
    later: u128,
    auto_slide: bool,
    refresh_interval: u128,
    sleep_after: Option<u128>,
)
    requires
        now + refresh_interval <= u128::MAX,
        s.updated(now, false, auto_slide, refresh_interval, sleep_after).1 is Render,
        now <= later < now + refresh_interval,
    ensures
        ({
            let next = s.updated(now, false, auto_slide, refresh_interval, sleep_after).0;
            !(next.updated(later, false, auto_slide, refresh_interval, sleep_after).1 is Render)
        }),
{
}

/// Whether a number of seconds is a time to wait.
pub open spec fn is_wait(seconds: Binary64) -> bool {
    seconds.is_finite() && seconds.value() > 0
}

/// The time between two renderings: at least the shortest, and as by default
/// where the number of seconds is no time to wait.
pub open spec fn refresh_time(seconds: Binary64) -> int {
    if !is_wait(seconds) {
        10_000_000_000
    } else if seconds.nanoseconds() < 250_000_000 {
        250_000_000
    } else {
        seconds.nanoseconds() as int
    }
}

fn wait_test(seconds: Binary64) -> (r: bool)
    ensures
        r == is_wait(seconds),
{
    let zero = Binary64::from_int(0);
    assert(0 * crate::binary64::one() == 0);
    seconds.finite_test() && zero.lt(seconds)
}

/// Gives the time between two renderings, in nanoseconds.
pub fn refresh_interval(seconds: Binary64) -> (r: u128)
    requires
        is_wait(seconds) ==> seconds.within_clock(),
    ensures
        r == refresh_time(seconds),
        r >= MIN_REFRESH_INTERVAL,
{
    if wait_test(seconds) {
        let nanos: u128 = seconds.nanos();
        if nanos < MIN_REFRESH_INTERVAL {
            MIN_REFRESH_INTERVAL
        } else {
            nanos
        }
    } else {
        DEFAULT_REFRESH_INTERVAL
    }
}

/// Gives the time without a touch after which the display goes dark, in
/// nanoseconds; `None` where it never does.
pub fn sleep_interval(seconds: Binary64) -> (r: Option<u128>)
    requires
        is_wait(seconds) ==> seconds.within_clock(),
    ensures
        match r {
            Some(nanos) => is_wait(seconds) && nanos == seconds.nanoseconds(),
            None => !is_wait(seconds),
        },
{
    if wait_test(seconds) {
        Some(seconds.nanos())
    } else {
        None
    }
}

/// The bus of the display, if the board has one.
pub open spec fn bus_of(map: PinMap) -> Result<Option<Seq<char>>, Seq<char>> {
    if map.sda is None && map.scl is None {
        Ok(None)
    } else if map.sda is None || map.scl is None {
        Err("OLED requires both SDA and SCL pin-map values"@)
    } else {
        match map.oled_i2c_device {
            Some(device) => Ok(Some(device@)),
            None => Ok(Some(DEFAULT_I2C_DEVICE@)),
        }
    }
}

/// Finds the bus of the display, if the board has one.
pub fn oled_bus(pin_map: &PinMap) -> (r: Result<Option<String>, String>)
    ensures
        match r {
            Ok(bus) => bus_of(*pin_map) == Ok::<Option<Seq<char>>, Seq<char>>(maybe_text(bus)),
            Err(error) => bus_of(*pin_map) == Err::<Option<Seq<char>>, Seq<char>>(error@),
        },
{
    if pin_map.sda.is_none() && pin_map.scl.is_none() {
        return Ok(None);
    }
    if pin_map.sda.is_none() || pin_map.scl.is_none() {
        return Err("OLED requires both SDA and SCL pin-map values".to_owned());
    }
    match &pin_map.oled_i2c_device {
        Some(device) => Ok(Some(device.clone())),
        None => Ok(Some(DEFAULT_I2C_DEVICE.to_owned())),
    }
}

/// The number of a line, which may stand behind a `D` or `GPIO`.
pub open spec fn gpio_line(value: Seq<char>) -> Option<int> {
    let name = trimmed(value);
    let number = if name.len() > 0 && (name[0] == 'D' || name[0] == 'd') {
        name.skip(1)
    } else if starts_with(name, "GPIO"@) {
        name.skip(4)
    } else {
        name
    };
    unsigned(number, u32::MAX as int)
}

/// Reads the number of a line.
pub fn parse_gpio_line(value: &str) -> (r: Option<u32>)
    ensures
        match r {
            Some(line) => gpio_line(value@) == Some(line as int),
            None => gpio_line(value@) is None,
        },
{
    proof {
        reveal_strlit("GPIO");
    }
    let chars = chars_of(value);
    let name = trim(&chars);
    let number: &[char] = if name.len() > 0 && (name[0] == 'D' || name[0] == 'd') {
        slice_subrange(name, 1, name.len())
    } else if has_prefix(name, "GPIO") {
        slice_subrange(name, 4, name.len())
    } else {
        name
    };
    assert(name@.len() > 0 ==> name@.subrange(1, name@.len() as int) == name@.skip(1));
    assert(name@.len() >= 4 ==> name@.subrange(4, name@.len() as int) == name@.skip(4));
    match parse_unsigned(number, u32::MAX as u64) {
        Some(line) => Some(line as u32),
        None => None,
    }
}

/// A line of a chip.
#[derive(Debug, Clone, PartialEq, Eq)]
pub struct ChipLine {
    pub chip: String,
    pub line: u32,
}

/// The line that resets the display, if it is given: its chip and its number.
pub open spec fn reset_of(map: PinMap) -> Result<Option<(Seq<char>, int)>, Seq<char>> {
    let chip = match map.button_chip {
        Some(chip) => Some(chip@),
        None => maybe_text(map.fan_chip),
    };
    match (map.oled_reset, chip) {
        (Some(name), Some(chip)) => match gpio_line(name@) {
            Some(line) => Ok(Some((chip, line))),
            None => Err("cannot parse OLED_RESET line "@ + quoted(name@)),
        },
        _ => Ok(None),
    }
}

/// Finds the line that resets the display.
pub fn request_reset_line(pin_map: &PinMap) -> (r: Result<Option<ChipLine>, String>)
    ensures
        match r {
            Ok(None) => reset_of(*pin_map) == Ok::<Option<(Seq<char>, int)>, Seq<char>>(None),
            Ok(Some(line)) => reset_of(*pin_map) == Ok::<Option<(Seq<char>, int)>, Seq<char>>(
                Some((line.chip@, line.line as int)),
            ),
            Err(error) => reset_of(*pin_map) == Err::<Option<(Seq<char>, int)>, Seq<char>>(error@),
        },
{
    let name = match &pin_map.oled_reset {
        Some(name) => name,
        None => {
            return Ok(None);
        },
    };
    let chip = match &pin_map.button_chip {
        Some(chip) => chip.clone(),
        None => match &pin_map.fan_chip {
            Some(chip) => chip.clone(),
            None => {
                return Ok(None);
            },
        },
    };
    match parse_gpio_line(name.as_str()) {
        Some(line) => Ok(Some(ChipLine { chip, line })),
        None => {
            let mut error = "cannot parse OLED_RESET line ".to_owned();
            error.append(quote(name.as_str()).as_str());
            Err(error)
        },
    }
}

/// How the display is reset: its line is held low for 10 milliseconds, and then
/// high for as long.
pub fn reset_pulse() -> (r: Vec<PinHold>)
    ensures
        r@ == seq![
            (PinHold { active: false, hold: 10_000_000 }),
            (PinHold { active: true, hold: 10_000_000 }),
        ],
{
    let mut plan: Vec<PinHold> = Vec::new();
    plan.push(PinHold { active: false, hold: 10_000_000 });
    plan.push(PinHold { active: true, hold: 10_000_000 });
    plan
}

/// What sets the display up: off, clock and height, charge pump, addresses that
/// run along the rows, the orientation, contrast and timing, on.
pub open spec fn setup(rotate: bool) -> Seq<u8> {
    seq![0xaeu8, 0xd5, 0x80, 0xa8, 0x1f, 0xd3, 0x00, 0x40, 0x8d, 0x14, 0x20, 0x00] + orientation(
        rotate,
    ) + seq![0xdau8, 0x02, 0x81, 0x8f, 0xd9, 0xf1, 0xdb, 0x40, 0xa4, 0xa6, 0x2e, 0xaf]
}

/// What turns the picture by half a turn, or not.
pub open spec fn orientation(rotate: bool) -> Seq<u8> {
    if rotate {
        seq![0xa0u8, 0xc0]
    } else {
        seq![0xa1u8, 0xc8]
    }
}

/// Gives the commands that set the display up.
pub fn setup_commands(rotate: bool) -> (r: Vec<u8>)
    ensures
        r@ == setup(rotate),
{
    let segment_remap: u8 = if rotate {
        0xa0
    } else {
        0xa1
    };
    let com_scan: u8 = if rotate {
        0xc0
    } else {
        0xc8
    };
    let r: Vec<u8> = vec![
        0xae, 0xd5, 0x80, 0xa8, 0x1f, 0xd3, 0x00, 0x40, 0x8d, 0x14, 0x20, 0x00, segment_remap,
        com_scan, 0xda, 0x02, 0x81, 0x8f, 0xd9, 0xf1, 0xdb, 0x40, 0xa4, 0xa6, 0x2e, 0xaf,
    ];
    assert(r@ =~= setup(rotate));
    r
}

/// Gives the command that turns the display on or off.
pub fn enable_commands(enabled: bool) -> (r: Vec<u8>)
    ensures
        r@ == seq![
            if enabled {
                0xafu8
            } else {
                0xaeu8
            },
        ],
{
    let command: u8 = if enabled {
        0xaf
    } else {
        0xae
    };
    let r: Vec<u8> = vec![command];
    r
}

/// Gives the commands that make what follows fill the display from its upper
/// left corner: all columns, all rows of bytes.
pub fn window_commands() -> (r: Vec<u8>)
    ensures
        r@ == seq![0x21u8, 0, 127, 0x22, 0, 3],
{
    let r: Vec<u8> = vec![0x21, 0, 127, 0x22, 0, 3];
    r
}

/// Gives the packet that carries commands.
pub fn command_packet(commands: &Vec<u8>) -> (r: Vec<u8>)
    ensures
        r@ == seq![0u8] + commands@,
{
    let mut packet: Vec<u8> = Vec::new();
    packet.push(0x00);
    for i in 0..commands.len()
        invariant
            packet@ == seq![0u8] + commands@.take(i as int),
    {
        packet.push(commands[i]);
    }
    assert(commands@.take(commands@.len() as int) == commands@);
    packet
}

/// The packet that carries sixteen bytes of a frame, counted from zero.
pub open spec fn data_packet(bytes: Seq<u8>, i: int) -> Seq<u8> {
    seq![0x40u8] + bytes.subrange(16 * i, 16 * i + 16)
}

/// The packets that carry a frame.
pub open spec fn data_packets(bytes: Seq<u8>) -> Seq<Seq<u8>> {
    Seq::new(32, |i: int| data_packet(bytes, i))
}

/// Packets as mathematical data.
pub open spec fn packet_views(packets: Seq<Vec<u8>>) -> Seq<Seq<u8>> {
    Seq::new(packets.len(), |i: int| packets[i]@)
}

/// Gives the packets that carry a frame.
pub fn frame_packets(frame: &Framebuffer) -> (r: Vec<Vec<u8>>)
    requires
        frame.complete(),
    ensures
        packet_views(r@) == data_packets(frame.bytes@),
{
    let mut packets: Vec<Vec<u8>> = Vec::new();
    let ghost wanted = data_packets(frame.bytes@);
    assert(packet_views(packets@) == wanted.take(0));
    for i in 0..32usize
        invariant
            frame.complete(),
            wanted == data_packets(frame.bytes@),
            packet_views(packets@) == wanted.take(i as int),
    {
        let mut packet: Vec<u8> = Vec::new();
        packet.push(0x40);
        for k in 0..16usize
            invariant
                frame.complete(),
                i < 32,
                packet@ == data_packet(frame.bytes@, i as int).take(k + 1),
        {
            packet.push(frame.bytes[16 * i + k]);
        }
        assert(packet@ == data_packet(frame.bytes@, i as int));
        let ghost before = packet_views(packets@);
        packets.push(packet);
        assert(packet_views(packets@) == before.push(packet@));
        assert(wanted[i as int] == packet@);
    }
    assert(wanted.take(32) == wanted);
    packets
}

/// The packets of a frame carry each of its bytes, in their order.
pub proof fn packets_carry_every_byte(bytes: Seq<u8>, k: int)
    requires
        bytes.len() == FRAMEBUFFER_SIZE,
        0 <= k < FRAMEBUFFER_SIZE,
    ensures
        data_packets(bytes)[k / 16].len() == 17,
        data_packets(bytes)[k / 16][0] == 0x40,
        data_packets(bytes)[k / 16][1 + k % 16] == bytes[k],
{
    let i = k / 16;
    assert(data_packet(bytes, i)[1 + k % 16] == bytes.subrange(16 * i, 16 * i + 16)[k % 16]);
}

/// Whether the button was touched less than the time to sleep ago, or there is no
/// such time.
pub open spec fn is_awake_time(s: OledSchedule, now: u128, sleep_after: Option<u128>) -> bool {
    match sleep_after {
        Some(sleep) => sleep > 0 && now - s.last_manual_event < sleep,
        None => true,
    }
}

/// A page is shown when its time has come, and with automatic sliding it is the
/// next one; the time for the one after that is an interval later. Before its time
/// nothing happens. Only a touch counts as one.
pub proof fn pages_are_shown_in_time(
    s: OledSchedule,
    now: u128,
    auto_slide: bool,
    refresh_interval: u128,
    sleep_after: Option<u128>,
)
    requires
        is_awake_time(s, now, sleep_after),
        now + refresh_interval <= u128::MAX,
    ensures
        ({
            let (next, update) = s.updated(now, false, auto_slide, refresh_interval, sleep_after);
            &&& now < s.next_refresh ==> next == s && update == OledUpdate::Nothing
            &&& now >= s.next_refresh ==> {
                &&& update == OledUpdate::Render { page: next.page, wake: false }
                &&& next.page == if auto_slide {
                    page_after(s.page)
                } else {
                    s.page
                }
                &&& next.next_refresh == now + refresh_interval
                &&& next.blank == s.blank && next.last_manual_event == s.last_manual_event
            }
        }),
        ({
            let (next, update) = s.updated(now, true, auto_slide, refresh_interval, sleep_after);
            next.last_manual_event == now && next.next_refresh == now + refresh_interval
        }),
{
}

/// There are three pages, and after the last comes the first.
pub proof fn pages_follow_each_other(page: usize)
    requires
        page < 3,
    ensures
        page < 2 ==> page_after(page) == page + 1,
        page == 2 ==> page_after(page) == 0,
        page_after(page_after(page_after(page))) == page,
{
}

/// The time between two renderings is the set number of seconds, to within half a
/// nanosecond, but never less than a quarter of a second; what is no time to wait
/// stands for ten seconds.
pub proof fn refresh_time_is_the_set_time(seconds: Binary64)
    ensures
        !seconds.is_finite() || seconds.value() <= 0 ==> refresh_time(seconds) == 10_000_000_000,
        refresh_time(seconds) >= 250_000_000,
        seconds.is_finite() && seconds.value() > 0 && refresh_time(seconds) > 250_000_000 ==> 2
            * refresh_time(seconds) * crate::binary64::one() <= 2 * (seconds.value()
            * 1_000_000_000) + crate::binary64::one() && 2 * refresh_time(seconds)
            * crate::binary64::one() >= 2 * (seconds.value() * 1_000_000_000)
            - crate::binary64::one(),
        seconds.is_finite() && seconds.value() > 0 && refresh_time(seconds) == 250_000_000
            ==> seconds.nanoseconds() <= 250_000_000,
{
    crate::binary64::nanoseconds_are_nearest(seconds);
}

/// A board has a display exactly where both of its wires are given; one wire alone
/// is an error. The bus is the one that is given, or else the usual one.
pub proof fn display_needs_both_wires(map: PinMap)
    ensures
        map.sda is None && map.scl is None ==> bus_of(map) == Ok::<Option<Seq<char>>, Seq<char>>(
            None,
        ),
        map.sda is Some && map.scl is Some ==> bus_of(map) is Ok && bus_of(map)->Ok_0 is Some,
        (map.sda is Some) != (map.scl is Some) ==> bus_of(map) is Err,
        map.sda is Some && map.scl is Some && map.oled_i2c_device is None ==> bus_of(map) == Ok::<
            Option<Seq<char>>,
            Seq<char>,
        >(Some("/dev/i2c-1"@)),
        map.sda is Some && map.scl is Some ==> (map.oled_i2c_device matches Some(device) ==> bus_of(
            map,
        ) == Ok::<Option<Seq<char>>, Seq<char>>(Some(device@))),
{
}

/// A line is given by its number, alone or behind `D`, `d` or `GPIO`, with any
/// white space around it.
pub proof fn lines_are_given_by_number(before: Seq<char>, line: nat, after: Seq<char>)
    requires
        crate::text::all_space(before),
        crate::text::all_space(after),
        line <= u32::MAX,
    ensures
        gpio_line(before + crate::number::decimal(line) + after) == Some(line as int),
        gpio_line(before + (seq!['D'] + crate::number::decimal(line)) + after) == Some(line as int),
        gpio_line(before + (seq!['d'] + crate::number::decimal(line)) + after) == Some(line as int),
        gpio_line(before + (seq!['G', 'P', 'I', 'O'] + crate::number::decimal(line)) + after)
            == Some(line as int),
{
    let digits = crate::number::decimal(line);
    crate::number::written_number_reads_back(line, u32::MAX as int);
    crate::number::written_numbers_are_shortest(line);
    assert(crate::text::is_digit(digits[0]));
    assert(crate::text::is_digit(digits[digits.len() - 1]));
    reveal_strlit("GPIO");
    crate::text::trimming_cuts_space_around(before, digits, after);
    if starts_with(digits, "GPIO"@) {
        assert(digits.take(4)[0] == digits[0]);
    }
    let upper = seq!['D'] + digits;
    assert(upper.last() == digits.last());
    crate::text::trimming_cuts_space_around(before, upper, after);
    assert(upper.skip(1) =~= digits);
    let lower = seq!['d'] + digits;
    assert(lower.last() == digits.last());
    crate::text::trimming_cuts_space_around(before, lower, after);
    assert(lower.skip(1) =~= digits);
    let long = seq!['G', 'P', 'I', 'O'] + digits;
    assert(long.last() == digits.last());
    crate::text::trimming_cuts_space_around(before, long, after);
    assert(long.take(4) =~= "GPIO"@);
    assert(long.skip(4) =~= digits);
}

/// The display is reset where a line for that is given, on the chip of the button
/// or else on that of the fan; a line that cannot be read is an error.
pub proof fn reset_line_is_on_a_known_chip(map: PinMap)
    ensures
        map.oled_reset is None ==> reset_of(map) == Ok::<Option<(Seq<char>, int)>, Seq<char>>(None),
        map.button_chip is None && map.fan_chip is None ==> reset_of(map) == Ok::<
            Option<(Seq<char>, int)>,
            Seq<char>,
        >(None),
        map.oled_reset matches Some(name) ==> (map.button_chip matches Some(chip) ==> (gpio_line(
            name@,
        ) matches Some(line) ==> reset_of(map) == Ok::<Option<(Seq<char>, int)>, Seq<char>>(
            Some((chip@, line)),
        ))),
        map.oled_reset matches Some(name) ==> (map.button_chip is None ==> (
        map.fan_chip matches Some(chip) ==> (gpio_line(name@) matches Some(line) ==> reset_of(map)
            == Ok::<Option<(Seq<char>, int)>, Seq<char>>(Some((chip@, line)))))),
        map.oled_reset matches Some(name) ==> (gpio_line(name@) is None && (map.button_chip is Some
            || map.fan_chip is Some) ==> reset_of(map) is Err),
{
}

/// Turning the picture changes the two commands of the orientation and nothing
/// else; the display is off while it is set up, and on in the end.
pub proof fn rotation_changes_the_orientation_alone(i: int)
    requires
        0 <= i < 26,
    ensures
        setup(true).len() == 26 && setup(false).len() == 26,
        setup(true)[i] == setup(false)[i] <==> i != 12 && i != 13,
        setup(true)[12] == 0xa0 && setup(true)[13] == 0xc0,
        setup(false)[12] == 0xa1 && setup(false)[13] == 0xc8,
        setup(true)[0] == 0xae && setup(true)[25] == 0xaf,
{
}

/// The display is set up for 32 rows, with its own charge pump, with addresses that
/// run along the rows from the first, and shows what it is sent as it is.
pub proof fn display_is_set_up_for_its_size(rotate: bool)
    ensures
        setup(rotate).subrange(1, 12) == seq![
            0xd5u8,
            0x80,
            0xa8,
            0x1f,
            0xd3,
            0x00,
            0x40,
            0x8d,
            0x14,
            0x20,
            0x00,
        ],
        setup(rotate)[4] + 1 == crate::framebuffer::HEIGHT,
        setup(rotate).subrange(14, 25) == seq![
            0xdau8,
            0x02,
            0x81,
            0x8f,
            0xd9,
            0xf1,
            0xdb,
            0x40,
            0xa4,
            0xa6,
            0x2e,
        ],
{
    assert(setup(rotate).subrange(1, 12) =~= seq![
        0xd5u8,
        0x80,
        0xa8,
        0x1f,
        0xd3,
        0x00,
        0x40,
        0x8d,
        0x14,
        0x20,
        0x00,
    ]);
    assert(setup(rotate).subrange(14, 25) =~= seq![
        0xdau8,
        0x02,
        0x81,
        0x8f,
        0xd9,
        0xf1,
        0xdb,
        0x40,
        0xa4,
        0xa6,
        0x2e,
    ]);
}

} // verus!
