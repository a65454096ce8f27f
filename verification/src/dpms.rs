//! Restoring the backlight when the panel comes back on.
use vstd::prelude::*;

#[allow(unused_imports)]
use crate::decimal::{
    digit_run,
    digits_value,
    is_digit,
    law_reading_stops_behind_digits,
    leading_digits,
    lemma_digit_run,
    lemma_digit_run_is,
    lemma_digits_value_grows,
    lemma_nat_digits_shape,
    lemma_nat_digits_value,
    lemma_short_rows_fit,
    nat_digits,
};
use crate::decimal::{push_digits, ZERO};
use crate::lux::lux_to_brightness;
#[allow(unused_imports)]
use crate::lux::{brightness_for, law_brightness_in_range};
#[allow(unused_imports)]
use crate::nodes::{effects, Effect};
use crate::nodes::{Command, Node};

verus! {

/// Reads as `On` or `Off`.
pub const DPMS_NODE: &'static str = "/sys/class/drm/card0-DSI-1/dpms";

/// How many bytes of a node are read.
pub const NODE_BUF: usize = 8;

/// How long the backlight is left between the two writes, in microseconds.
pub const SETTLE_US: u64 = 8000;

/// What a wait for a change of the panel waits for: urgent data (`POLLPRI`) and
/// errors (`POLLERR`), which is how the kernel tells of a changed node.
pub const POLL_EVENTS: i16 = 10;

/// How long a wait for a change of the panel lasts at most, in milliseconds.
pub const DPMS_WAIT_MS: i32 = 500;

/// How long to pause between two looks at the panel where the kernel cannot wait
/// for a change, in milliseconds.
pub const DPMS_PAUSE_MS: u64 = 8;

/// How long the first of the two trial waits lasts at most, in milliseconds. It
/// uses up a change that is already there.
pub const PROBE_DRAIN_MS: i32 = 100;

/// How long the second of the two trial waits lasts at most, in milliseconds.
pub const PROBE_WAIT_MS: i32 = 2;

/// Do the first `n` bytes of `buf` say that the panel is on?
pub open spec fn says_on(buf: Seq<u8>, n: int) -> bool {
    n >= 2 && buf[0] == 79 && buf[1] == 110
}

/// Do the first `n` bytes of `buf` say that the panel is on?
pub fn is_dpms_on(buf: &[u8], n: usize) -> (on: bool)
    requires
        n >= 2 ==> buf@.len() >= 1 && (buf@[0] == 79 ==> buf@.len() >= 2),
    ensures
        on == says_on(buf@, n as int),
{
    n >= 2 && buf[0] == 79 && buf[1] == 110
}

/// The number that the first `n` bytes of `buf` start with, and zero where they
/// start with no digit.
pub open spec fn number_in(buf: Seq<u8>, n: int) -> nat {
    digits_value(leading_digits(buf.take(n)))
}

/// The number that the first `n` bytes of `buf` start with.
pub fn parse_u32(buf: &[u8], n: usize) -> (value: u32)
    requires
        n <= buf@.len(),
        number_in(buf@, n as int) <= u32::MAX,
    ensures
        value == number_in(buf@, n as int),
{
    let ghost text = buf@.take(n as int);
    let ghost digits = leading_digits(text);
    let mut value: u32 = 0;
    let mut i: usize = 0;
    proof {
        lemma_digit_run(text);
        assert forall|j: int| 0 <= j < digits.len() implies is_digit(#[trigger] digits[j]) by {
            assert(digits[j] == text[j]);
        }
    }
    while i < n && ZERO <= buf[i] && buf[i] <= ZERO + 9
        invariant
            i <= n <= buf@.len(),
            text == buf@.take(n as int),
            digits == leading_digits(text),
            digits.len() == digit_run(text) <= n,
            forall|j: int| 0 <= j < digits.len() ==> is_digit(#[trigger] digits[j]),
            digits.len() < n ==> !is_digit(text[digits.len() as int]),
            digits_value(digits) <= u32::MAX,
            i <= digits.len(),
            value == digits_value(digits.take(i as int)),
        decreases n - i,
    {
        assert(text[i as int] == buf@[i as int]);
        assert(i < digits.len());
        proof {
            assert(digits[i as int] == buf@[i as int]);
            lemma_digits_value_grows(digits, i + 1);
            assert(digits.take(i + 1).drop_last() =~= digits.take(i as int));
        }
        value = value * 10 + (buf[i] - ZERO) as u32;
        i = i + 1;
    }
    proof {
        if i < digits.len() {
            assert(is_digit(digits[i as int]));
            assert(digits[i as int] == buf@[i as int]);
        }
        assert(digits.take(i as int) =~= digits);
    }
    value
}

/// Nine bytes or fewer cannot hold a number that does not fit.
pub proof fn lemma_short_buffer_fits(buf: Seq<u8>, n: int)
    requires
        0 <= n <= buf.len(),
        n <= 9,
    ensures
        number_in(buf, n) <= u32::MAX,
{
    let text = buf.take(n);
    let digits = leading_digits(text);
    lemma_digit_run(text);
    assert forall|j: int| 0 <= j < digits.len() implies is_digit(#[trigger] digits[j]) by {
        assert(digits[j] == text[j]);
    }
    lemma_short_rows_fit(digits);
}

/// What is written to a node to set it to `val`: its digits.
pub fn sysfs_write_u32(val: u32) -> (data: Vec<u8>)
    ensures
        data@ == nat_digits(val as nat),
{
    let mut data: Vec<u8> = Vec::new();
    push_digits(&mut data, val);
    assert(data@ =~= nat_digits(val as nat));
    data
}

/// A number that was written to a node is read back from it, and so it is from a
/// node that adds a line feed or anything else that is no digit.
pub proof fn law_written_number_reads_back(val: u32, tail: Seq<u8>)
    requires
        tail.len() > 0 ==> !is_digit(tail[0]),
    ensures
        number_in(
            nat_digits(val as nat) + tail,
            (nat_digits(val as nat) + tail).len() as int,
        ) == val,
{
    let digits = nat_digits(val as nat);
    let all = digits + tail;
    lemma_nat_digits_shape(val as nat);
    lemma_nat_digits_value(val as nat);
    assert(all.take(all.len() as int) =~= all);
    assert forall|i: int| 0 <= i < digits.len() implies is_digit(#[trigger] all[i]) by {
        assert(all[i] == digits[i]);
    }
    lemma_digit_run_is(all, digits.len() as int);
    assert(all.take(digits.len() as int) =~= digits);
}

/// Setting the backlight to `level`.
pub open spec fn set_backlight(level: u32) -> Effect {
    Effect::Write { node: Node::Backlight, data: nat_digits(level as nat) }
}

/// Restoring the backlight: it is set to what fits the light, and set again after
/// a moment.
pub open spec fn inject_effects(lux_bits: u32) -> Seq<Effect> {
    seq![
        set_backlight(brightness_for(lux_bits)),
        Effect::Pause { micros: SETTLE_US as nat },
        set_backlight(brightness_for(lux_bits)),
    ]
}

/// What is done when the panel has come on and the backlight reads as the first `n`
/// bytes of `buf`.
pub open spec fn restore_effects(buf: Seq<u8>, n: int, lux_bits: u32) -> Seq<Effect> {
    if number_in(buf, n) == 0 {
        inject_effects(lux_bits)
    } else {
        Seq::empty()
    }
}

/// What to do when the panel has come on. `bright_buf` holds the `bn` bytes that
/// the backlight reads as. A backlight that is not at zero is left alone.
pub fn do_inject(bright_buf: &[u8; 8], bn: usize, lux_bits: u32) -> (commands: Vec<Command>)
    requires
        bn <= 8,
    ensures
        effects(commands@) == if number_in(bright_buf@, bn as int) == 0 {
            inject_effects(lux_bits)
        } else {
            Seq::empty()
        },
        effects(commands@) == restore_effects(bright_buf@, bn as int, lux_bits),
{
    let mut commands: Vec<Command> = Vec::new();
    proof {
        lemma_short_buffer_fits(bright_buf@, bn as int);
    }
    if parse_u32(bright_buf.as_slice(), bn) == 0 {
        let target: u32 = lux_to_brightness(lux_bits);
        commands.push(Command::Write { node: Node::Backlight, data: sysfs_write_u32(target) });
        commands.push(Command::Pause { micros: SETTLE_US });
        commands.push(Command::Write { node: Node::Backlight, data: sysfs_write_u32(target) });
        assert(effects(commands@) =~= inject_effects(lux_bits));
    } else {
        assert(effects(commands@) =~= Seq::empty());
    }
    commands
}

/// A backlight that was restored is not at zero, so it is left alone after that.
pub proof fn law_restored_backlight_is_left_alone(lux_bits: u32, tail: Seq<u8>)
    requires
        tail.len() > 0 ==> !is_digit(tail[0]),
    ensures
        ({
            let text = nat_digits(brightness_for(lux_bits) as nat) + tail;
            number_in(text, text.len() as int) != 0
        }),
{
    law_written_number_reads_back(brightness_for(lux_bits), tail);
    law_brightness_in_range(lux_bits);
}

/// A wait for a change of the panel: what for, and how long at most.
#[derive(Debug, Clone, Copy, PartialEq, Eq, Structural)]
pub struct PollRequest {
    pub events: i16,
    pub limit_millis: i32,
}

/// The two trial waits, in order.
pub open spec fn probe_waits() -> (PollRequest, PollRequest) {
    (
        PollRequest { events: POLL_EVENTS, limit_millis: PROBE_DRAIN_MS },
        PollRequest { events: POLL_EVENTS, limit_millis: PROBE_WAIT_MS },
    )
}

/// The two trial waits, in order. The second one is timed.
pub fn probe_requests() -> (requests: (PollRequest, PollRequest))
    ensures
        requests.0 == (PollRequest { events: POLL_EVENTS, limit_millis: PROBE_DRAIN_MS }),
        requests.1 == (PollRequest { events: POLL_EVENTS, limit_millis: PROBE_WAIT_MS }),
        requests == probe_waits(),
{
    (
        PollRequest { events: POLL_EVENTS, limit_millis: PROBE_DRAIN_MS },
        PollRequest { events: POLL_EVENTS, limit_millis: PROBE_WAIT_MS },
    )
}

/// Does the kernel's answer to a wait say that there was a change?
pub open spec fn tells_of_change(ret: i32) -> bool {
    ret > 0
}

/// Did the wait end with a change? `ret` is what the kernel answered.
pub fn wait_dpms_change(ret: i32) -> (changed: bool)
    ensures
        changed == (ret > 0),
        changed == tells_of_change(ret),
{
    ret > 0
}

/// Has a wait that took so many milliseconds waited at all?
pub open spec fn has_waited(elapsed_millis: u128) -> bool {
    elapsed_millis >= 1
}

/// Can the kernel wait for a change of the panel? It can where the second trial
/// wait took a millisecond or more; `elapsed_millis` is how long it took.
pub fn probe_poll_support(elapsed_millis: u128) -> (supported: bool)
    ensures
        supported == (elapsed_millis >= 1),
        supported == has_waited(elapsed_millis),
{
    elapsed_millis >= 1
}

/// How to wait before the next look at the panel.
#[derive(Debug, Clone, Copy, PartialEq, Eq, Structural)]
pub enum DpmsWait {
    /// Let the kernel wait for a change.
    ForChange { request: PollRequest },
    /// Pause for that long.
    Pause { millis: u64 },
}

/// What is remembered between two looks at the panel.
#[derive(Debug, Clone, Copy, PartialEq, Eq, Structural)]
pub struct DpmsMonitor {
    /// Was the panel on when it was looked at last?
    pub last_on: bool,
    /// Can the kernel wait for a change?
    pub use_poll: bool,
}

impl DpmsMonitor {
    /// How to wait before the next look at the panel.
    pub fn wait(&self) -> (wait: DpmsWait)
        ensures
            wait == if self.use_poll {
                DpmsWait::ForChange {
                    request: PollRequest { events: POLL_EVENTS, limit_millis: DPMS_WAIT_MS },
                }
            } else {
                DpmsWait::Pause { millis: DPMS_PAUSE_MS }
            },
            wait == self.next_wait(),
    {
        if self.use_poll {
            DpmsWait::ForChange {
                request: PollRequest { events: POLL_EVENTS, limit_millis: DPMS_WAIT_MS },
            }
        } else {
            DpmsWait::Pause { millis: DPMS_PAUSE_MS }
        }
    }

    /// How the next look at the panel is waited for.
    pub open spec fn next_wait(self) -> DpmsWait {
        if self.use_poll {
            DpmsWait::ForChange {
                request: PollRequest { events: POLL_EVENTS, limit_millis: DPMS_WAIT_MS },
            }
        } else {
            DpmsWait::Pause { millis: DPMS_PAUSE_MS }
        }
    }

    /// Takes a look at the panel, and says whether it has come on since the last
    /// one.
    pub fn observe(&mut self, now_on: bool) -> (came_on: bool)
        ensures
            *final(self) == old(self).after(now_on),
            came_on == old(self).comes_on(now_on),
    {
        let came_on: bool = !self.last_on && now_on;
        self.last_on = now_on;
        came_on
    }

    /// Has the panel come on, where it is now on or off as `now_on` says?
    pub open spec fn comes_on(self, now_on: bool) -> bool {
        !self.last_on && now_on
    }

    /// What is remembered after a look.
    pub open spec fn after(self, now_on: bool) -> DpmsMonitor {
        DpmsMonitor { last_on: now_on, ..self }
    }

    /// What is remembered after a row of looks.
    pub open spec fn after_all(self, looks: Seq<bool>) -> DpmsMonitor
        decreases looks.len(),
    {
        if looks.len() == 0 {
            self
        } else {
            self.after_all(looks.drop_last()).after(looks.last())
        }
    }
}

/// Over any row of looks, the panel comes on exactly at those looks that see it
/// on right after one that saw it off.
pub proof fn law_comes_on_at_rising_edges(monitor: DpmsMonitor, looks: Seq<bool>, i: int)
    requires
        0 <= i < looks.len(),
    ensures
        monitor.after_all(looks.take(i)).comes_on(looks[i]) <==> looks[i] && !(if i == 0 {
            monitor.last_on
        } else {
            looks[i - 1]
        }),
{
    if i > 0 {
        assert(looks.take(i).last() == looks[i - 1]);
    }
}

/// The panel is on exactly where at least two bytes were read and the first two of
/// them are those of `On`; what follows plays no part.
pub proof fn law_panel_is_on_by_two_bytes(buf: Seq<u8>, n: int)
    ensures
        says_on(buf, n) <==> n >= 2 && buf[0] as char == 'O' && buf[1] as char == 'n',
{
}

/// The number that a node reads as is that of the digits before the first byte that
/// is no digit, of the bytes that were read; without such digits it is zero.
pub proof fn law_number_is_read_up_to_a_non_digit(buf: Seq<u8>, n: int, k: int)
    requires
        0 <= k <= n <= buf.len(),
        forall|i: int| 0 <= i < k ==> 48 <= #[trigger] buf[i] <= 57,
        k < n ==> !(48 <= buf[k] <= 57),
    ensures
        number_in(buf, n) == digits_value(buf.take(k)),
        k == 0 ==> number_in(buf, n) == 0,
{
    let digits = buf.take(k);
    let tail = buf.subrange(k, n);
    assert(buf.take(n) =~= digits + tail);
    assert forall|i: int| 0 <= i < digits.len() implies 48 <= #[trigger] digits[i] <= 57 by {
        assert(digits[i] == buf[i]);
    }
    law_reading_stops_behind_digits(digits, tail);
}

/// A row of digits denotes zero where all of them are zero.
proof fn lemma_zero_row(s: Seq<u8>)
    requires
        forall|i: int| 0 <= i < s.len() ==> is_digit(#[trigger] s[i]),
    ensures
        digits_value(s) == 0 <==> forall|i: int| 0 <= i < s.len() ==> #[trigger] s[i] == 48,
    decreases s.len(),
{
    if s.len() > 0 {
        let front = s.drop_last();
        assert(is_digit(s.last()));
        assert forall|i: int| 0 <= i < front.len() implies is_digit(#[trigger] front[i]) by {
            assert(front[i] == s[i]);
        }
        lemma_zero_row(front);
        if digits_value(s) == 0 {
            assert forall|i: int| 0 <= i < s.len() implies #[trigger] s[i] == 48 by {
                if i < front.len() {
                    assert(front[i] == s[i]);
                }
            }
        }
        if forall|i: int| 0 <= i < s.len() ==> #[trigger] s[i] == 48 {
            assert forall|i: int| 0 <= i < front.len() implies #[trigger] front[i] == 48 by {
                assert(front[i] == s[i]);
            }
            assert(s[s.len() - 1] == 48);
        }
    }
}

/// A backlight is restored exactly where it reads as zero: where each of the `k` digits
/// before the first byte that is no digit is a `0`, or there are none. Restoring it is,
/// for every light, three things: the numeral of the brightness for that light, which
/// is not zero, is written to the backlight, 8 milliseconds pass, and the same numeral
/// is written again. A backlight that is not at zero is left alone.
pub proof fn law_zero_backlight_is_restored(buf: Seq<u8>, n: int, k: int, lux_bits: u32)
    requires
        0 <= k <= n <= buf.len(),
        forall|i: int| 0 <= i < k ==> 48 <= #[trigger] buf[i] <= 57,
        k < n ==> !(48 <= buf[k] <= 57),
    ensures
        ({
            let done = restore_effects(buf, n, lux_bits);
            if forall|i: int| 0 <= i < k ==> #[trigger] buf[i] == 48 {
                &&& done.len() == 3
                &&& done[0] == done[2]
                &&& done[1] == (Effect::Pause { micros: 8000 })
                &&& (done[0] matches Effect::Write { node, data } && {
                    &&& node is Backlight
                    &&& data == nat_digits(brightness_for(lux_bits) as nat)
                    &&& digits_value(data) == brightness_for(lux_bits)
                    &&& digits_value(data) >= 50
                })
            } else {
                done.len() == 0
            }
        }),
{
    let digits = buf.take(k);
    law_number_is_read_up_to_a_non_digit(buf, n, k);
    assert forall|i: int| 0 <= i < digits.len() implies is_digit(#[trigger] digits[i]) by {
        assert(digits[i] == buf[i]);
    }
    lemma_zero_row(digits);
    if digits_value(digits) == 0 {
        assert forall|i: int| 0 <= i < k implies #[trigger] buf[i] == 48 by {
            assert(digits[i] == buf[i]);
        }
    }
    if forall|i: int| 0 <= i < k ==> #[trigger] buf[i] == 48 {
        assert forall|i: int| 0 <= i < digits.len() implies #[trigger] digits[i] == 48 by {
            assert(digits[i] == buf[i]);
        }
    }
    lemma_nat_digits_value(brightness_for(lux_bits) as nat);
    law_brightness_in_range(lux_bits);
}

/// A node that has a wait to it is waited on for half a second at most, for urgent data
/// (2) or an error (8); one that has not is looked at every 8 milliseconds. The two
/// trial waits are for the same, the first for 100 milliseconds at most, the second
/// for 2. A wait that took no whole millisecond did not wait, and a wait ended with a
/// change exactly where the kernel's answer is positive.
pub proof fn law_waits_for_the_panel(monitor: DpmsMonitor, elapsed_millis: u128, ret: i32)
    ensures
        monitor.next_wait() is ForChange <==> monitor.use_poll,
        monitor.next_wait() matches DpmsWait::ForChange { request } ==> request.events == 2 + 8
            && request.limit_millis == 500,
        monitor.next_wait() matches DpmsWait::Pause { millis } ==> millis == 8,
        probe_waits().0.events == 2 + 8,
        probe_waits().1.events == 2 + 8,
        probe_waits().0.limit_millis == 100,
        probe_waits().1.limit_millis == 2,
        has_waited(elapsed_millis) <==> elapsed_millis != 0,
        tells_of_change(ret) <==> ret > 0,
{
}

/// A look at the panel is remembered, and nothing else changes. The panel has come on
/// where a look sees it on and the look before did not.
pub proof fn law_look_is_remembered(monitor: DpmsMonitor, now_on: bool)
    ensures
        monitor.after(now_on).last_on == now_on,
        monitor.after(now_on).use_poll == monitor.use_poll,
        monitor.comes_on(now_on) <==> now_on && !monitor.last_on,
{
}

} // verus!
