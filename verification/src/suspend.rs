//! The suspend state of the touch panel.
use vstd::prelude::*;

#[allow(unused_imports)]
use crate::decimal::{
    digits_value,
    int_digits,
    is_digit,
    lemma_digits_value_grows,
    lemma_nat_digits_shape,
    lemma_nat_digits_value,
    nat_digits,
    MINUS,
};
use crate::decimal::ZERO;
use crate::text::chars_of;

verus! {

/// Is `c` white space, as Unicode has it?
pub open spec fn is_space(c: char) -> bool {
    ||| '\u{9}' <= c <= '\u{d}'
    ||| c == ' '
    ||| c == '\u{85}'
    ||| c == '\u{a0}'
    ||| c == '\u{1680}'
    ||| '\u{2000}' <= c <= '\u{200a}'
    ||| c == '\u{2028}'
    ||| c == '\u{2029}'
    ||| c == '\u{202f}'
    ||| c == '\u{205f}'
    ||| c == '\u{3000}'
}

/// `s` without the white space that it starts with.
pub open spec fn trim_start(s: Seq<char>) -> Seq<char>
    decreases s.len(),
{
    if s.len() > 0 && is_space(s[0]) {
        trim_start(s.drop_first())
    } else {
        s
    }
}

/// `s` without the white space that it ends with.
pub open spec fn trim_end(s: Seq<char>) -> Seq<char>
    decreases s.len(),
{
    if s.len() > 0 && is_space(s.last()) {
        trim_end(s.drop_last())
    } else {
        s
    }
}

/// Is `c` one of the ten ASCII digits?
pub open spec fn is_digit_char(c: char) -> bool {
    '0' <= c <= '9'
}

/// Are there digits in `s`, and nothing else?
pub open spec fn is_numeral(s: Seq<char>) -> bool {
    s.len() > 0 && forall|i: int| 0 <= i < s.len() ==> is_digit_char(#[trigger] s[i])
}

/// The bytes of a row of ASCII characters.
pub open spec fn ascii_bytes(s: Seq<char>) -> Seq<u8> {
    s.map_values(|c: char| c as u8)
}

/// The integer that `s` denotes: digits, with or without one sign before them.
pub open spec fn integer_in(s: Seq<char>) -> Option<int> {
    let signed = s.len() > 0 && (s[0] == '-' || s[0] == '+');
    let digits = if signed {
        s.drop_first()
    } else {
        s
    };
    if !is_numeral(digits) {
        None
    } else if signed && s[0] == '-' {
        Some(-(digits_value(ascii_bytes(digits)) as int))
    } else {
        Some(digits_value(ascii_bytes(digits)) as int)
    }
}

/// The suspend state that `s` holds: the integer in it, without the white space
/// around it, and zero where there is none or where it does not fit.
pub open spec fn suspend_state_in(s: Seq<char>) -> int {
    match integer_in(trim_end(trim_start(s))) {
        Some(value) => if i32::MIN <= value <= i32::MAX {
            value
        } else {
            0
        },
        None => 0,
    }
}

/// Is `c` white space?
fn is_space_char(c: char) -> (yes: bool)
    ensures
        yes == is_space(c),
{
    ('\u{9}' <= c && c <= '\u{d}') || c == ' ' || c == '\u{85}' || c == '\u{a0}' || c == '\u{1680}'
        || ('\u{2000}' <= c && c <= '\u{200a}') || c == '\u{2028}' || c == '\u{2029}'
        || c == '\u{202f}' || c == '\u{205f}' || c == '\u{3000}'
}

/// The digits of `s` from `from` to `to`, or `None` where there are none or where
/// something else stands among them.
fn digits_between(s: &Vec<char>, from: usize, to: usize) -> (digits: Option<Vec<u8>>)
    requires
        from <= to <= s@.len(),
    ensures
        match digits {
            Some(row) => is_numeral(s@.subrange(from as int, to as int)) && row@ == ascii_bytes(
                s@.subrange(from as int, to as int),
            ),
            None => !is_numeral(s@.subrange(from as int, to as int)),
        },
{
    let ghost part = s@.subrange(from as int, to as int);
    if from == to {
        return None;
    }
    let mut row: Vec<u8> = Vec::new();
    let mut i: usize = from;
    while i < to
        invariant
            from <= i <= to <= s@.len(),
            part == s@.subrange(from as int, to as int),
            row@ == ascii_bytes(part).take(i - from),
            forall|j: int| 0 <= j < i - from ==> is_digit_char(#[trigger] part[j]),
        decreases to - i,
    {
        let c: char = s[i];
        assert(part[i - from] == c);
        if !('0' <= c && c <= '9') {
            return None;
        }
        row.push(c as u8);
        i = i + 1;
        assert(row@ =~= ascii_bytes(part).take(i - from));
    }
    assert(ascii_bytes(part).take(to - from) =~= ascii_bytes(part));
    Some(row)
}

/// The value of `row`, or `None` where it is over `limit`.
fn value_up_to(row: &Vec<u8>, limit: u32) -> (value: Option<u32>)
    requires
        forall|i: int| 0 <= i < row@.len() ==> is_digit(#[trigger] row@[i]),
    ensures
        match value {
            Some(v) => v == digits_value(row@) && v <= limit,
            None => digits_value(row@) > limit,
        },
{
    let mut value: u32 = 0;
    let mut i: usize = 0;
    while i < row.len()
        invariant
            i <= row@.len(),
            forall|j: int| 0 <= j < row@.len() ==> is_digit(#[trigger] row@[j]),
            value == digits_value(row@.take(i as int)),
            value <= limit,
        decreases row@.len() - i,
    {
        assert(is_digit(row@[i as int]));
        let more: u64 = value as u64 * 10 + (row[i] - ZERO) as u64;
        proof {
            assert(row@.take(i + 1).drop_last() =~= row@.take(i as int));
            lemma_digits_value_grows(row@, i + 1);
        }
        if more > limit as u64 {
            return None;
        }
        value = more as u32;
        i = i + 1;
    }
    assert(row@.take(row@.len() as int) =~= row@);
    Some(value)
}

/// The integer in `s` from `from` to `to`, or `None` where there is none or where
/// it does not fit.
fn parse_between(s: &Vec<char>, from: usize, to: usize) -> (value: Option<i32>)
    requires
        from <= to <= s@.len(),
    ensures
        match (integer_in(s@.subrange(from as int, to as int)), value) {
            (Some(integer), Some(v)) => v == integer,
            (Some(integer), None) => !(i32::MIN <= integer <= i32::MAX),
            (None, _) => value is None,
        },
{
    let ghost part = s@.subrange(from as int, to as int);
    let signed: bool = from < to && (s[from] == '-' || s[from] == '+');
    let negative: bool = from < to && s[from] == '-';
    let start: usize = if signed {
        from + 1
    } else {
        from
    };
    proof {
        if from < to {
            assert(part[0] == s@[from as int]);
            assert(part.drop_first() =~= s@.subrange(from + 1, to as int));
        }
    }
    match digits_between(s, start, to) {
        None => None,
        Some(row) => {
            let ghost digits = s@.subrange(start as int, to as int);
            assert forall|i: int| 0 <= i < row@.len() implies is_digit(#[trigger] row@[i]) by {
                assert(is_digit_char(digits[i]));
            }
            let limit: u32 = if negative {
                0x8000_0000
            } else {
                0x7fff_ffff
            };
            match value_up_to(&row, limit) {
                None => None,
                Some(magnitude) => if negative {
                    Some((0 - magnitude as i64) as i32)
                } else {
                    Some(magnitude as i32)
                },
            }
        },
    }
}

/// The suspend state by what its node holds, and zero where it could not be read.
pub open spec fn state_of(contents: Option<&str>) -> int {
    match contents {
        Some(text) => suspend_state_in(text@),
        None => 0,
    }
}

/// The suspend state. `contents` is what its node holds, or `None` where it could
/// not be read as text. What cannot be read counts as zero.
pub fn get_suspend_state(contents: Option<&str>) -> (state: i32)
    ensures
        state == match contents {
            Some(text) => suspend_state_in(text@),
            None => 0,
        },
        state == state_of(contents),
{
    match contents {
        None => 0,
        Some(text) => {
            let s: Vec<char> = chars_of(text);
            let from: usize = skip_spaces(&s);
            let to: usize = skip_spaces_back(&s, from);
            match parse_between(&s, from, to) {
                Some(value) => value,
                None => 0,
            }
        },
    }
}

/// Where the text of `s` begins, after the white space at its start.
fn skip_spaces(s: &Vec<char>) -> (from: usize)
    ensures
        from <= s@.len(),
        s@.skip(from as int) == trim_start(s@),
{
    let mut from: usize = 0;
    assert(s@.skip(0) =~= s@);
    while from < s.len() && is_space_char(s[from])
        invariant
            from <= s@.len(),
            trim_start(s@.skip(from as int)) == trim_start(s@),
        decreases s@.len() - from,
    {
        assert(s@.skip(from as int).drop_first() =~= s@.skip(from + 1));
        from = from + 1;
    }
    from
}

/// Where the text of `s` from `from` on ends, before the white space at its end.
fn skip_spaces_back(s: &Vec<char>, from: usize) -> (to: usize)
    requires
        from <= s@.len(),
    ensures
        from <= to <= s@.len(),
        s@.subrange(from as int, to as int) == trim_end(s@.skip(from as int)),
{
    let mut to: usize = s.len();
    assert(s@.subrange(from as int, to as int) =~= s@.skip(from as int));
    while to > from && is_space_char(s[to - 1])
        invariant
            from <= to <= s@.len(),
            trim_end(s@.subrange(from as int, to as int)) == trim_end(s@.skip(from as int)),
        decreases to,
    {
        assert(s@.subrange(from as int, to as int).drop_last() =~= s@.subrange(
            from as int,
            to - 1,
        ));
        to = to - 1;
    }
    to
}

/// The characters of a row of ASCII bytes.
pub open spec fn ascii_chars(s: Seq<u8>) -> Seq<char> {
    s.map_values(|b: u8| b as char)
}

/// White space before a text is trimmed away.
proof fn lemma_trim_start(spaces: Seq<char>, text: Seq<char>)
    requires
        forall|i: int| 0 <= i < spaces.len() ==> is_space(#[trigger] spaces[i]),
        text.len() > 0,
        !is_space(text[0]),
    ensures
        trim_start(spaces + text) == text,
    decreases spaces.len(),
{
    if spaces.len() == 0 {
        assert(spaces + text =~= text);
    } else {
        assert(is_space(spaces[0]));
        let fewer = spaces.drop_first();
        assert forall|i: int| 0 <= i < fewer.len() implies is_space(#[trigger] fewer[i]) by {
            assert(fewer[i] == spaces[i + 1]);
        }
        assert((spaces + text).drop_first() =~= fewer + text);
        lemma_trim_start(fewer, text);
    }
}

/// White space after a text is trimmed away.
proof fn lemma_trim_end(text: Seq<char>, spaces: Seq<char>)
    requires
        forall|i: int| 0 <= i < spaces.len() ==> is_space(#[trigger] spaces[i]),
        text.len() > 0,
        !is_space(text.last()),
    ensures
        trim_end(text + spaces) == text,
    decreases spaces.len(),
{
    if spaces.len() == 0 {
        assert(text + spaces =~= text);
    } else {
        assert(is_space(spaces.last()));
        let fewer = spaces.drop_last();
        assert((text + spaces).drop_last() =~= text + fewer);
        lemma_trim_end(text, fewer);
    }
}

/// The digits of a number, as characters, are a numeral for it.
proof fn lemma_numeral_of_digits(n: nat)
    ensures
        is_numeral(ascii_chars(nat_digits(n))),
        digits_value(ascii_bytes(ascii_chars(nat_digits(n)))) == n,
{
    lemma_nat_digits_shape(n);
    lemma_nat_digits_value(n);
    let digits = nat_digits(n);
    let text = ascii_chars(digits);
    assert forall|i: int| 0 <= i < text.len() implies is_digit_char(#[trigger] text[i]) by {
        assert(is_digit(digits[i]));
    }
    assert forall|i: int| 0 <= i < text.len() implies #[trigger] ascii_bytes(text)[i]
        == digits[i] by {
        assert(is_digit(digits[i]));
    }
    assert(ascii_bytes(text) =~= digits);
}

/// A node that holds the numeral of a state, with any white space around it,
/// reads as that state.
pub proof fn law_suspend_state_reads_numerals(
    state: i32,
    before: Seq<char>,
    after: Seq<char>,
)
    requires
        forall|i: int| 0 <= i < before.len() ==> is_space(#[trigger] before[i]),
        forall|i: int| 0 <= i < after.len() ==> is_space(#[trigger] after[i]),
    ensures
        suspend_state_in(before + ascii_chars(int_digits(state as int)) + after) == state,
{
    let text = ascii_chars(int_digits(state as int));
    let n = if state < 0 {
        (-state) as nat
    } else {
        state as nat
    };
    let digits = ascii_chars(nat_digits(n));
    lemma_numeral_of_digits(n);
    assert(is_digit_char(digits[0]));
    assert(is_digit_char(digits.last()));
    if state < 0 {
        assert(text =~= seq!['-'] + digits);
        assert(text.drop_first() =~= digits);
    } else {
        assert(text =~= digits);
    }
    assert(before + text + after =~= before + (text + after));
    lemma_trim_start(before, text + after);
    lemma_trim_end(text, after);
}

/// White space is what Unicode counts as such: these 25 characters.
pub proof fn law_white_space_characters(c: char)
    ensures
        is_space(c) <==> {
            ||| 9 <= c as int <= 13
            ||| c as int == 32
            ||| c as int == 133
            ||| c as int == 160
            ||| c as int == 5760
            ||| 8192 <= c as int <= 8202
            ||| c as int == 8232
            ||| c as int == 8233
            ||| c as int == 8239
            ||| c as int == 8287
            ||| c as int == 12288
        },
{
}

/// Digits with or without one sign before them, and with any white space around them,
/// read as the number that they denote, and as zero where that number does not fit.
pub proof fn law_suspend_state_reads_signed_digits(
    before: Seq<char>,
    sign: Seq<char>,
    digits: Seq<char>,
    row: Seq<u8>,
    after: Seq<char>,
)
    requires
        forall|i: int| 0 <= i < before.len() ==> is_space(#[trigger] before[i]),
        forall|i: int| 0 <= i < after.len() ==> is_space(#[trigger] after[i]),
        sign == Seq::<char>::empty() || sign == seq!['+'] || sign == seq!['-'],
        digits.len() > 0,
        row.len() == digits.len(),
        forall|i: int| 0 <= i < row.len() ==> 48 <= #[trigger] row[i] <= 57,
        forall|i: int| 0 <= i < digits.len() ==> #[trigger] digits[i] as int == row[i],
    ensures
        ({
            let value = if sign == seq!['-'] {
                -(digits_value(row) as int)
            } else {
                digits_value(row) as int
            };
            suspend_state_in(before + sign + digits + after) == if -0x8000_0000 <= value
                < 0x8000_0000 {
                value
            } else {
                0
            }
        }),
{
    let text = sign + digits;
    assert forall|i: int| 0 <= i < digits.len() implies is_digit_char(#[trigger] digits[i]) by {
        assert(48 <= row[i] <= 57);
    }
    assert(is_digit_char(digits[0]) && is_digit_char(digits.last()));
    assert forall|i: int| 0 <= i < digits.len() implies #[trigger] ascii_bytes(digits)[i]
        == row[i] by {
        assert(digits[i] as int == row[i]);
    }
    assert(ascii_bytes(digits) =~= row);
    if sign.len() == 0 {
        assert(text =~= digits);
    } else {
        assert(text[0] == sign[0]);
        assert(text.drop_first() =~= digits);
    }
    assert(before + sign + digits + after =~= before + (text + after));
    assert((text + after)[0] == text[0]);
    lemma_trim_start(before, text + after);
    lemma_trim_end(text, after);
}

/// What is trimmed from the start is white space.
proof fn lemma_trimmed_start(s: Seq<char>) -> (k: int)
    ensures
        0 <= k <= s.len(),
        trim_start(s) == s.skip(k),
        forall|i: int| 0 <= i < k ==> is_space(#[trigger] s[i]),
    decreases s.len(),
{
    if s.len() > 0 && is_space(s[0]) {
        let rest = s.drop_first();
        let k = lemma_trimmed_start(rest);
        assert(rest.skip(k) =~= s.skip(k + 1));
        assert forall|i: int| 0 <= i < k + 1 implies is_space(#[trigger] s[i]) by {
            if i > 0 {
                assert(s[i] == rest[i - 1]);
            }
        }
        k + 1
    } else {
        assert(s.skip(0) =~= s);
        0
    }
}

/// What is trimmed from the end is white space.
proof fn lemma_trimmed_end(s: Seq<char>) -> (k: int)
    ensures
        0 <= k <= s.len(),
        trim_end(s) == s.take(k),
        forall|i: int| k <= i < s.len() ==> is_space(#[trigger] s[i]),
    decreases s.len(),
{
    if s.len() > 0 && is_space(s.last()) {
        let rest = s.drop_last();
        let k = lemma_trimmed_end(rest);
        assert(rest.take(k) =~= s.take(k));
        assert forall|i: int| k <= i < s.len() implies is_space(#[trigger] s[i]) by {
            if i < rest.len() {
                assert(s[i] == rest[i]);
            }
        }
        k
    } else {
        assert(s.take(s.len() as int) =~= s);
        s.len() as int
    }
}

/// Nothing else reads as anything but zero: where a state is not zero, there are
/// digits with or without one sign before them, and white space around that.
pub proof fn law_only_signed_digits_are_a_state(s: Seq<char>)
    ensures
        suspend_state_in(s) != 0 ==> exists|from: int, to: int|
            {
                &&& 0 <= from < to <= s.len()
                &&& #[trigger] s[from] == '+' || s[from] == '-' || '0' <= s[from] <= '9'
                &&& '0' <= #[trigger] s[to - 1] <= '9'
                &&& forall|i: int| from < i < to ==> '0' <= #[trigger] s[i] <= '9'
                &&& forall|i: int| 0 <= i < from ==> is_space(#[trigger] s[i])
                &&& forall|i: int| to <= i < s.len() ==> is_space(#[trigger] s[i])
            },
        -0x8000_0000 <= suspend_state_in(s) < 0x8000_0000,
{
    if suspend_state_in(s) != 0 {
        let from = lemma_trimmed_start(s);
        let tail = s.skip(from);
        let len = lemma_trimmed_end(tail);
        let text = tail.take(len);
        let to = from + len;
        let signed = text.len() > 0 && (text[0] == '-' || text[0] == '+');
        let digits = if signed {
            text.drop_first()
        } else {
            text
        };
        assert(is_numeral(digits));
        assert(digits.last() == s[to - 1]);
        assert(is_digit_char(digits[digits.len() - 1]));
        assert(text[0] == s[from]);
        assert forall|i: int| from < i < to implies '0' <= #[trigger] s[i] <= '9' by {
            let j = if signed {
                i - from - 1
            } else {
                i - from
            };
            assert(digits[j] == s[i]);
            assert(is_digit_char(digits[j]));
        }
        if !signed {
            assert(is_digit_char(digits[0]));
        }
        assert forall|i: int| to <= i < s.len() implies is_space(#[trigger] s[i]) by {
            assert(tail[i - from] == s[i]);
        }
    }
}

/// A node that cannot be read counts as zero, and one that can be read counts as what it
/// holds.
pub proof fn law_unread_state_is_zero(contents: Option<&str>)
    ensures
        contents is None ==> state_of(contents) == 0,
        contents matches Some(text) ==> state_of(contents) == suspend_state_in(text@),
{
}

} // verus!
