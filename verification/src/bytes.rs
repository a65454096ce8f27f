//! Integers in the kernel's records. The kernel writes them in the byte order of
//! its machine, so every reading takes that order.
use vstd::prelude::*;

verus! {

/// The order in which a machine stores the bytes of an integer.
#[derive(Debug, Clone, Copy, PartialEq, Eq, Structural)]
pub enum ByteOrder {
    /// The least significant byte comes first.
    Little,
    /// The most significant byte comes first.
    Big,
}

/// The number that `s` holds, least significant byte first.
pub open spec fn le_value(s: Seq<u8>) -> nat
    decreases s.len(),
{
    if s.len() == 0 {
        0
    } else {
        s[0] as nat + 256 * le_value(s.drop_first())
    }
}

/// The number that `s` holds, most significant byte first.
pub open spec fn be_value(s: Seq<u8>) -> nat
    decreases s.len(),
{
    if s.len() == 0 {
        0
    } else {
        256 * be_value(s.drop_last()) + s.last() as nat
    }
}

/// The number that the `len` bytes at `at` hold.
pub open spec fn field(order: ByteOrder, s: Seq<u8>, at: int, len: int) -> nat {
    match order {
        ByteOrder::Little => le_value(s.subrange(at, at + len)),
        ByteOrder::Big => be_value(s.subrange(at, at + len)),
    }
}

/// The number that a field means where its upper half stands for the negative
/// numbers; `span` is how many values the field can hold.
pub open spec fn signed(value: nat, span: nat) -> int {
    if value < span / 2 {
        value as int
    } else {
        value - span
    }
}

/// A field is its least significant byte and the rest of it.
proof fn lemma_field_step(order: ByteOrder, s: Seq<u8>, at: int, len: int)
    requires
        0 <= at,
        0 < len,
        at + len <= s.len(),
    ensures
        field(order, s, at, len) == match order {
            ByteOrder::Little => s[at] as nat + 256 * field(order, s, at + 1, len - 1),
            ByteOrder::Big => 256 * field(order, s, at, len - 1) + s[at + len - 1] as nat,
        },
{
    let part = s.subrange(at, at + len);
    assert(part.drop_first() =~= s.subrange(at + 1, at + len));
    assert(part.drop_last() =~= s.subrange(at, at + len - 1));
}

/// A field without bytes holds zero.
proof fn lemma_field_end(order: ByteOrder, s: Seq<u8>, at: int)
    requires
        0 <= at <= s.len(),
    ensures
        field(order, s, at, 0) == 0,
{
}

/// A field of four bytes is two fields of two bytes.
proof fn lemma_field_halves_4(order: ByteOrder, s: Seq<u8>, at: int)
    requires
        0 <= at,
        at + 4 <= s.len(),
    ensures
        field(order, s, at, 4) == match order {
            ByteOrder::Little => field(order, s, at, 2) + 0x1_0000 * field(order, s, at + 2, 2),
            ByteOrder::Big => 0x1_0000 * field(order, s, at, 2) + field(order, s, at + 2, 2),
        },
{
    match order {
        ByteOrder::Little => {
            lemma_field_step(order, s, at, 4);
            lemma_field_step(order, s, at + 1, 3);
            lemma_field_step(order, s, at, 2);
            lemma_field_step(order, s, at + 1, 1);
            lemma_field_end(order, s, at + 2);
        },
        ByteOrder::Big => {
            lemma_field_step(order, s, at, 4);
            lemma_field_step(order, s, at, 3);
            lemma_field_step(order, s, at + 2, 2);
            lemma_field_step(order, s, at + 2, 1);
            lemma_field_end(order, s, at + 2);
        },
    }
}

/// A field of eight bytes is two fields of four bytes.
proof fn lemma_field_halves_8(order: ByteOrder, s: Seq<u8>, at: int)
    requires
        0 <= at,
        at + 8 <= s.len(),
    ensures
        field(order, s, at, 8) == match order {
            ByteOrder::Little => field(order, s, at, 4) + 0x1_0000_0000 * field(
                order,
                s,
                at + 4,
                4,
            ),
            ByteOrder::Big => 0x1_0000_0000 * field(order, s, at, 4) + field(order, s, at + 4, 4),
        },
{
    match order {
        ByteOrder::Little => {
            lemma_field_step(order, s, at, 8);
            lemma_field_step(order, s, at + 1, 7);
            lemma_field_step(order, s, at + 2, 6);
            lemma_field_step(order, s, at + 3, 5);
            lemma_field_step(order, s, at, 4);
            lemma_field_step(order, s, at + 1, 3);
            lemma_field_step(order, s, at + 2, 2);
            lemma_field_step(order, s, at + 3, 1);
            lemma_field_end(order, s, at + 4);
        },
        ByteOrder::Big => {
            lemma_field_step(order, s, at, 8);
            lemma_field_step(order, s, at, 7);
            lemma_field_step(order, s, at, 6);
            lemma_field_step(order, s, at, 5);
            lemma_field_step(order, s, at + 4, 4);
            lemma_field_step(order, s, at + 4, 3);
            lemma_field_step(order, s, at + 4, 2);
            lemma_field_step(order, s, at + 4, 1);
            lemma_field_end(order, s, at + 4);
        },
    }
}

/// The two bytes at `at`.
pub fn u16_at(order: ByteOrder, s: &[u8], at: usize) -> (value: u16)
    requires
        at + 2 <= s@.len(),
    ensures
        value == field(order, s@, at as int, 2),
{
    proof {
        lemma_field_step(order, s@, at as int, 2);
        lemma_field_step(order, s@, at as int, 1);
        lemma_field_step(order, s@, at + 1, 1);
        lemma_field_end(order, s@, at as int);
        lemma_field_end(order, s@, at + 2);
    }
    let first: u16 = s[at] as u16;
    let second: u16 = s[at + 1] as u16;
    match order {
        ByteOrder::Little => first + 256 * second,
        ByteOrder::Big => 256 * first + second,
    }
}

/// The four bytes at `at`.
pub fn u32_at(order: ByteOrder, s: &[u8], at: usize) -> (value: u32)
    requires
        at + 4 <= s@.len(),
    ensures
        value == field(order, s@, at as int, 4),
{
    assert(s@.len() == s.len());
    let first: u32 = u16_at(order, s, at) as u32;
    let second: u32 = u16_at(order, s, at + 2) as u32;
    proof {
        lemma_field_halves_4(order, s@, at as int);
    }
    match order {
        ByteOrder::Little => first + 0x1_0000 * second,
        ByteOrder::Big => 0x1_0000 * first + second,
    }
}

/// The eight bytes at `at`.
pub fn u64_at(order: ByteOrder, s: &[u8], at: usize) -> (value: u64)
    requires
        at + 8 <= s@.len(),
    ensures
        value == field(order, s@, at as int, 8),
{
    assert(s@.len() == s.len());
    let first: u64 = u32_at(order, s, at) as u64;
    let second: u64 = u32_at(order, s, at + 4) as u64;
    proof {
        lemma_field_halves_8(order, s@, at as int);
    }
    match order {
        ByteOrder::Little => first + 0x1_0000_0000 * second,
        ByteOrder::Big => 0x1_0000_0000 * first + second,
    }
}

/// The four bytes at `at`, signed.
pub fn i32_at(order: ByteOrder, s: &[u8], at: usize) -> (value: i32)
    requires
        at + 4 <= s@.len(),
    ensures
        value == signed(field(order, s@, at as int, 4), 0x1_0000_0000),
{
    let raw: u32 = u32_at(order, s, at);
    if raw < 0x8000_0000 {
        raw as i32
    } else {
        -((0xffff_ffff - raw) as i32) - 1
    }
}

/// The eight bytes at `at`, signed.
pub fn i64_at(order: ByteOrder, s: &[u8], at: usize) -> (value: i64)
    requires
        at + 8 <= s@.len(),
    ensures
        value == signed(field(order, s@, at as int, 8), 0x1_0000_0000_0000_0000),
{
    let raw: u64 = u64_at(order, s, at);
    if raw < 0x8000_0000_0000_0000 {
        raw as i64
    } else {
        -((0xffff_ffff_ffff_ffff - raw) as i64) - 1
    }
}

/// A field holds the same number in one order as its bytes, turned around, hold in
/// the other.
pub proof fn law_orders_mirror(s: Seq<u8>)
    ensures
        be_value(s) == le_value(s.reverse()),
    decreases s.len(),
{
    if s.len() > 0 {
        law_orders_mirror(s.drop_last());
        assert(s.reverse().drop_first() =~= s.drop_last().reverse());
    }
}

/// A field is the sum of its bytes, each counted 256 times as much as the one next to
/// it: from the left on a machine of one order, from the right on one of the other.
pub proof fn law_field_is_sum_of_bytes(s: Seq<u8>, at: int)
    requires
        0 <= at,
    ensures
        at + 2 <= s.len() ==> {
            &&& field(ByteOrder::Little, s, at, 2) == s[at] + 256 * s[at + 1]
            &&& field(ByteOrder::Big, s, at, 2) == s[at + 1] + 256 * s[at]
        },
        at + 4 <= s.len() ==> {
            &&& field(ByteOrder::Little, s, at, 4) == s[at] + 256 * s[at + 1] + 0x1_0000 * s[at + 2]
                + 0x100_0000 * s[at + 3]
            &&& field(ByteOrder::Big, s, at, 4) == s[at + 3] + 256 * s[at + 2] + 0x1_0000 * s[at
                + 1] + 0x100_0000 * s[at]
        },
        at + 8 <= s.len() ==> {
            &&& field(ByteOrder::Little, s, at, 8) == s[at] + 256 * s[at + 1] + 0x1_0000 * s[at + 2]
                + 0x100_0000 * s[at + 3] + 0x1_0000_0000 * s[at + 4] + 0x100_0000_0000 * s[at + 5]
                + 0x1_0000_0000_0000 * s[at + 6] + 0x100_0000_0000_0000 * s[at + 7]
            &&& field(ByteOrder::Big, s, at, 8) == s[at + 7] + 256 * s[at + 6] + 0x1_0000 * s[at
                + 5] + 0x100_0000 * s[at + 4] + 0x1_0000_0000 * s[at + 3] + 0x100_0000_0000 * s[at
                + 2] + 0x1_0000_0000_0000 * s[at + 1] + 0x100_0000_0000_0000 * s[at]
        },
{
    if at + 2 <= s.len() {
        lemma_field_pair(s, at);
    }
    if at + 4 <= s.len() {
        lemma_field_quad(s, at);
    }
    if at + 8 <= s.len() {
        lemma_field_quad(s, at + 4);
        lemma_field_halves_8(ByteOrder::Little, s, at);
        lemma_field_halves_8(ByteOrder::Big, s, at);
    }
}

/// A field of two bytes, byte by byte.
proof fn lemma_field_pair(s: Seq<u8>, at: int)
    requires
        0 <= at,
        at + 2 <= s.len(),
    ensures
        field(ByteOrder::Little, s, at, 2) == s[at] + 256 * s[at + 1],
        field(ByteOrder::Big, s, at, 2) == s[at + 1] + 256 * s[at],
{
    lemma_field_step(ByteOrder::Little, s, at, 2);
    lemma_field_step(ByteOrder::Little, s, at + 1, 1);
    lemma_field_end(ByteOrder::Little, s, at + 2);
    lemma_field_step(ByteOrder::Big, s, at, 2);
    lemma_field_step(ByteOrder::Big, s, at, 1);
    lemma_field_end(ByteOrder::Big, s, at);
}

/// A field of four bytes, byte by byte.
proof fn lemma_field_quad(s: Seq<u8>, at: int)
    requires
        0 <= at,
        at + 4 <= s.len(),
    ensures
        field(ByteOrder::Little, s, at, 4) == s[at] + 256 * s[at + 1] + 0x1_0000 * s[at + 2]
            + 0x100_0000 * s[at + 3],
        field(ByteOrder::Big, s, at, 4) == s[at + 3] + 256 * s[at + 2] + 0x1_0000 * s[at + 1]
            + 0x100_0000 * s[at],
{
    lemma_field_pair(s, at);
    lemma_field_pair(s, at + 2);
    lemma_field_halves_4(ByteOrder::Little, s, at);
    lemma_field_halves_4(ByteOrder::Big, s, at);
}

/// A signed field is what its bytes hold or a whole span less, whichever lies in the
/// span around zero.
pub proof fn law_signed_field_lies_around_zero(value: nat, half: nat)
    requires
        value < 2 * half,
    ensures
        -half <= signed(value, 2 * half) < half,
        signed(value, 2 * half) == value || signed(value, 2 * half) == value - 2 * half,
{
}

} // verus!
