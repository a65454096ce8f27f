//! Events of the kernel's input devices.
use vstd::prelude::*;

#[allow(unused_imports)]
use crate::bytes::{field, law_field_is_sum_of_bytes, law_orders_mirror, signed};
use crate::bytes::{i32_at, i64_at, u16_at, ByteOrder};

verus! {

/// The event type of keys and buttons.
pub const EV_KEY: u16 = 1;

/// The key code of one wake gesture.
pub const GESTURE_KEY_1: u16 = 354;

/// The key code of the other wake gesture.
pub const GESTURE_KEY_2: u16 = 338;

/// How many bytes an event takes.
pub const INPUT_EVENT_SIZE: usize = 24;

/// How long to wait after a read that failed, in milliseconds.
pub const READ_RETRY_MS: u64 = 100;

/// One event: when it happened, what kind it is, which key it is about, and
/// what happened to that key.
#[derive(Debug, Clone, Copy, PartialEq, Eq, Structural)]
pub struct InputEvent {
    pub sec: i64,
    pub usec: i64,
    pub ev_type: u16,
    pub code: u16,
    pub value: i32,
}

impl InputEvent {
    /// Does `record` hold this event? The fields follow each other without gaps,
    /// in the byte order of the machine.
    pub open spec fn is_held_by(self, order: ByteOrder, record: Seq<u8>) -> bool {
        &&& record.len() == INPUT_EVENT_SIZE
        &&& self.sec == signed(field(order, record, 0, 8), 0x1_0000_0000_0000_0000)
        &&& self.usec == signed(field(order, record, 8, 8), 0x1_0000_0000_0000_0000)
        &&& self.ev_type == field(order, record, 16, 2)
        &&& self.code == field(order, record, 18, 2)
        &&& self.value == signed(field(order, record, 20, 4), 0x1_0000_0000)
    }

    /// Reads an event out of its record.
    pub fn from_record(order: ByteOrder, record: &[u8]) -> (event: InputEvent)
        requires
            record@.len() == INPUT_EVENT_SIZE,
        ensures
            event.is_held_by(order, record@),
    {
        InputEvent {
            sec: i64_at(order, record, 0),
            usec: i64_at(order, record, 8),
            ev_type: u16_at(order, record, 16),
            code: u16_at(order, record, 18),
            value: i32_at(order, record, 20),
        }
    }

    /// Is this one of the two gesture keys going down?
    pub open spec fn spec_is_wake_gesture(self) -> bool {
        &&& self.ev_type == EV_KEY
        &&& self.code == GESTURE_KEY_1 || self.code == GESTURE_KEY_2
        &&& self.value == 1
    }

    /// Is this one of the two gesture keys going down?
    pub fn is_wake_gesture(&self) -> (yes: bool)
        ensures
            yes == self.spec_is_wake_gesture(),
    {
        self.ev_type == EV_KEY && (self.code == GESTURE_KEY_1 || self.code == GESTURE_KEY_2)
            && self.value == 1
    }
}

/// What became of an attempt to use the input device.
#[derive(Debug)]
pub enum InputRead {
    /// The device could not be opened.
    OpenFailed,
    /// The device was opened.
    Opened,
    /// A whole event could not be read.
    ReadFailed,
    /// One event was read, and this is its record.
    Record(Vec<u8>),
}

/// What to do about it.
#[derive(Debug, Clone, Copy, PartialEq, Eq, Structural)]
pub enum InputAction {
    /// Give the device up.
    Stop,
    /// Read the next event.
    Read,
    /// Wait for that many milliseconds, then read the next event.
    PauseThenRead { millis: u64 },
    /// Light the panel, then read the next event.
    WakeThenRead,
}

/// Is `record` the record of a wake gesture?
pub open spec fn holds_wake_gesture(order: ByteOrder, record: Seq<u8>) -> bool {
    let code = field(order, record, 18, 2);
    &&& field(order, record, 16, 2) == EV_KEY
    &&& code == GESTURE_KEY_1 || code == GESTURE_KEY_2
    &&& signed(field(order, record, 20, 4), 0x1_0000_0000) == 1
}

/// What to do after `read`.
pub open spec fn input_action(order: ByteOrder, read: InputRead) -> InputAction {
    match read {
        InputRead::OpenFailed => InputAction::Stop,
        InputRead::Opened => InputAction::Read,
        InputRead::ReadFailed => InputAction::PauseThenRead { millis: READ_RETRY_MS },
        InputRead::Record(record) => if holds_wake_gesture(order, record@) {
            InputAction::WakeThenRead
        } else {
            InputAction::Read
        },
    }
}

/// A record holds one event only.
pub proof fn law_record_holds_one_event(
    order: ByteOrder,
    a: InputEvent,
    b: InputEvent,
    record: Seq<u8>,
)
    requires
        a.is_held_by(order, record),
        b.is_held_by(order, record),
    ensures
        a == b,
{
}

/// Whether a record holds a wake gesture depends on its last eight bytes only:
/// the time of the event plays no part.
pub proof fn law_gesture_ignores_time(order: ByteOrder, a: Seq<u8>, b: Seq<u8>)
    requires
        a.len() == INPUT_EVENT_SIZE,
        b.len() == INPUT_EVENT_SIZE,
        a.skip(16) == b.skip(16),
    ensures
        holds_wake_gesture(order, a) == holds_wake_gesture(order, b),
{
    assert(a.subrange(16, 18) =~= a.skip(16).subrange(0, 2));
    assert(b.subrange(16, 18) =~= b.skip(16).subrange(0, 2));
    assert(a.subrange(18, 20) =~= a.skip(16).subrange(2, 4));
    assert(b.subrange(18, 20) =~= b.skip(16).subrange(2, 4));
    assert(a.subrange(20, 24) =~= a.skip(16).subrange(4, 8));
    assert(b.subrange(20, 24) =~= b.skip(16).subrange(4, 8));
}

/// The first action is decided by whether the device opens, a read that failed is
/// tried again after a tenth of a second, and a record is never given up on.
pub proof fn law_device_is_given_up_only_unopened(order: ByteOrder, read: InputRead)
    ensures
        input_action(order, read) is Stop <==> read is OpenFailed,
        input_action(order, read) is PauseThenRead <==> read is ReadFailed,
        input_action(order, read) matches InputAction::PauseThenRead { millis } ==> millis == 100,
        input_action(order, read) is WakeThenRead ==> read is Record,
        read is Opened ==> input_action(order, read) is Read,
{
}

/// A key event wakes exactly when it is one of two keys, and that key goes down:
/// every other key, every release and repeat, and every other kind of event is
/// passed over.
pub proof fn law_two_keys_going_down_wake(event: InputEvent)
    ensures
        event.spec_is_wake_gesture() <==> event.ev_type == 1 && event.value == 1 && (event.code
            == 354 || event.code == 338),
{
}

/// A record leads to a wakeup exactly when its last eight bytes are those of type 1,
/// of code 354 (0x162) or 338 (0x152), and of value 1, in the byte order of the
/// machine. Every other record leads to the next read.
pub proof fn law_wake_records_by_bytes(order: ByteOrder, record: Vec<u8>)
    requires
        record@.len() == 24,
    ensures
        input_action(order, InputRead::Record(record)) is WakeThenRead <==> match order {
            ByteOrder::Little => {
                &&& record@[16] == 1 && record@[17] == 0
                &&& record@[18] == 0x62 || record@[18] == 0x52
                &&& record@[19] == 1
                &&& record@[20] == 1 && record@[21] == 0 && record@[22] == 0 && record@[23] == 0
            },
            ByteOrder::Big => {
                &&& record@[16] == 0 && record@[17] == 1
                &&& record@[18] == 1
                &&& record@[19] == 0x62 || record@[19] == 0x52
                &&& record@[20] == 0 && record@[21] == 0 && record@[22] == 0 && record@[23] == 1
            },
        },
        !(input_action(order, InputRead::Record(record)) is WakeThenRead) ==> input_action(
            order,
            InputRead::Record(record),
        ) is Read,
{
    law_field_is_sum_of_bytes(record@, 16);
    law_field_is_sum_of_bytes(record@, 18);
    law_field_is_sum_of_bytes(record@, 20);
}

/// The event that is read out of a record wakes exactly where the record does.
pub proof fn law_event_and_record_agree(order: ByteOrder, record: Vec<u8>, event: InputEvent)
    requires
        event.is_held_by(order, record@),
    ensures
        input_action(order, InputRead::Record(record)) is WakeThenRead <==> event.ev_type == 1
            && event.value == 1 && (event.code == 354 || event.code == 338),
{
}

/// The time of an event stands in the first sixteen bytes of its record, eight for
/// the seconds and eight for the rest; then come two bytes for the type, two for the
/// code and four for the value. Negative numbers count from the top of their span.
pub proof fn law_record_layout(event: InputEvent, record: Seq<u8>)
    requires
        event.is_held_by(ByteOrder::Little, record),
    ensures
        record.len() == 24,
        record[0] + 256 * record[1] + 0x1_0000 * record[2] + 0x100_0000 * record[3]
            + 0x1_0000_0000 * record[4] + 0x100_0000_0000 * record[5] + 0x1_0000_0000_0000
            * record[6] + 0x100_0000_0000_0000 * record[7] == if event.sec < 0 {
            event.sec + 0x1_0000_0000_0000_0000
        } else {
            event.sec as int
        },
        record[8] + 256 * record[9] + 0x1_0000 * record[10] + 0x100_0000 * record[11]
            + 0x1_0000_0000 * record[12] + 0x100_0000_0000 * record[13] + 0x1_0000_0000_0000
            * record[14] + 0x100_0000_0000_0000 * record[15] == if event.usec < 0 {
            event.usec + 0x1_0000_0000_0000_0000
        } else {
            event.usec as int
        },
        record[16] + 256 * record[17] == event.ev_type,
        record[18] + 256 * record[19] == event.code,
        record[20] + 256 * record[21] + 0x1_0000 * record[22] + 0x100_0000 * record[23]
            == if event.value < 0 {
            event.value + 0x1_0000_0000
        } else {
            event.value as int
        },
{
    law_field_is_sum_of_bytes(record, 0);
    law_field_is_sum_of_bytes(record, 8);
    law_field_is_sum_of_bytes(record, 16);
    law_field_is_sum_of_bytes(record, 18);
    law_field_is_sum_of_bytes(record, 20);
}

/// On a machine of the other byte order, each of the five fields stands in the same
/// place with its bytes turned around.
pub proof fn law_record_layout_mirrors(event: InputEvent, a: Seq<u8>, b: Seq<u8>)
    requires
        a.len() == 24,
        b.len() == 24,
        a.subrange(0, 8) == b.subrange(0, 8).reverse(),
        a.subrange(8, 16) == b.subrange(8, 16).reverse(),
        a.subrange(16, 18) == b.subrange(16, 18).reverse(),
        a.subrange(18, 20) == b.subrange(18, 20).reverse(),
        a.subrange(20, 24) == b.subrange(20, 24).reverse(),
    ensures
        event.is_held_by(ByteOrder::Little, a) <==> event.is_held_by(ByteOrder::Big, b),
{
    law_orders_mirror(b.subrange(0, 8));
    law_orders_mirror(b.subrange(8, 16));
    law_orders_mirror(b.subrange(16, 18));
    law_orders_mirror(b.subrange(18, 20));
    law_orders_mirror(b.subrange(20, 24));
}

} // verus!
