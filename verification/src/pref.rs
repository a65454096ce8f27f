//! The preference that switches the display on and off.
use vstd::prelude::*;

#[allow(unused_imports)]
use crate::text::{contains, stands_at};
use crate::text::{chars_of, range_contains};

verus! {

/// The file that holds the display's preferences.
pub const PREF_PATH: &'static str =
    "/data/user_de/0/com.miui.aod/shared_prefs/com.miui.aod_preferences.xml";

/// The directory that the file stands in.
pub const PREF_DIR: &'static str = "/data/user_de/0/com.miui.aod/shared_prefs";

/// The name of the file in that directory.
pub const PREF_FILE: &'static str = "com.miui.aod_preferences.xml";

/// The name of the preference.
pub const PREF_KEY: &'static str = "aod_temporary_style";

/// How the preference reads while it is on.
pub const PREF_ON: &'static str = "\"true\"";

/// The path of the preference file is its directory, a slash and its name.
pub proof fn lemma_pref_path_splits()
    ensures
        PREF_PATH@ == PREF_DIR@ + "/"@ + PREF_FILE@,
        !PREF_FILE@.contains('/'),
        PREF_FILE@.len() > 0,
{
    reveal_strlit("/data/user_de/0/com.miui.aod/shared_prefs/com.miui.aod_preferences.xml");
    reveal_strlit("/data/user_de/0/com.miui.aod/shared_prefs");
    reveal_strlit("/");
    reveal_strlit("com.miui.aod_preferences.xml");
    assert(PREF_PATH@ =~= PREF_DIR@ + "/"@ + PREF_FILE@);
}

/// Is the part of `s` from `from` to `to` a whole line, without the line feed
/// that ends it?
pub open spec fn is_line(s: Seq<char>, from: int, to: int) -> bool {
    &&& 0 <= from <= to <= s.len()
    &&& from == 0 || s[from - 1] == '\n'
    &&& to == s.len() || s[to] == '\n'
    &&& forall|i: int| from <= i < to ==> #[trigger] s[i] != '\n'
}

/// Does this line switch the display on?
pub open spec fn switches_on(line: Seq<char>) -> bool {
    contains(line, PREF_KEY@) && contains(line, PREF_ON@)
}

/// Does some line of `data` switch the display on?
pub open spec fn some_line_switches_on(data: Seq<char>) -> bool {
    exists|from: int, to: int| #[trigger]
        is_line(data, from, to) && switches_on(data.subrange(from, to))
}

/// Does what the preference file holds switch the display on? What cannot be read does
/// not.
pub open spec fn is_switched_on(data: Option<&str>) -> bool {
    data matches Some(text) && some_line_switches_on(text@)
}

/// Is the display switched on? `data` is what the preference file holds, or
/// `None` where it could not be read as text; then the display is off.
///
/// A carriage return before a line feed counts to the line here. That makes no
/// difference: neither text that is looked for holds one.
pub fn read_aod_enabled(data: Option<&str>) -> (enabled: bool)
    ensures
        enabled == (data matches Some(text) && some_line_switches_on(text@)),
        enabled == is_switched_on(data),
{
    match data {
        Some(text) => any_line_switches_on(&chars_of(text)),
        None => false,
    }
}

/// Does some line of `s` switch the display on?
fn any_line_switches_on(s: &Vec<char>) -> (yes: bool)
    ensures
        yes == some_line_switches_on(s@),
{
    let key: Vec<char> = chars_of(PREF_KEY);
    let on: Vec<char> = chars_of(PREF_ON);
    let mut from: usize = 0;
    loop
        invariant
            key@ == PREF_KEY@,
            on@ == PREF_ON@,
            from <= s@.len(),
            from == 0 || s@[from - 1] == '\n',
            forall|a: int, b: int|
                a < from && #[trigger] is_line(s@, a, b) ==> !switches_on(s@.subrange(a, b)),
        decreases s@.len() - from,
    {
        let to: usize = line_end(s, from);
        if range_contains(s, from, to, &key) && range_contains(s, from, to, &on) {
            return true;
        }
        assert forall|a: int, b: int| a <= to && #[trigger] is_line(s@, a, b) implies !switches_on(
            s@.subrange(a, b),
        ) by {
            if a >= from {
                lemma_line_between(s@, from as int, to as int, a, b);
            }
        }
        if to == s.len() {
            return false;
        }
        from = to + 1;
    }
}

/// A carriage return at the end of a line changes nothing about what the line
/// says.
pub proof fn law_carriage_return_is_ignored(line: Seq<char>)
    ensures
        switches_on(line.push('\r')) == switches_on(line),
{
    reveal_strlit("aod_temporary_style");
    reveal_strlit("\"true\"");
    lemma_contains_before(line, '\r', PREF_KEY@);
    lemma_contains_before(line, '\r', PREF_ON@);
}

/// A pattern that does not end in `c` stands in a text before `c` or nowhere.
proof fn lemma_contains_before(s: Seq<char>, c: char, pattern: Seq<char>)
    requires
        pattern.len() > 0,
        pattern.last() != c,
    ensures
        contains(s.push(c), pattern) == contains(s, pattern),
{
    let longer = s.push(c);
    let n = pattern.len() as int;
    if contains(s, pattern) {
        let at = choose|at: int| stands_at(s, pattern, at);
        assert(longer.subrange(at, at + n) =~= s.subrange(at, at + n));
        assert(stands_at(longer, pattern, at));
    }
    if contains(longer, pattern) {
        let at = choose|at: int| stands_at(longer, pattern, at);
        if at + n == longer.len() {
            assert(longer.subrange(at, at + n).last() == c);
        }
        assert(longer.subrange(at, at + n) =~= s.subrange(at, at + n));
        assert(stands_at(s, pattern, at));
    }
}

/// No other line starts inside a line.
proof fn lemma_line_between(s: Seq<char>, from: int, to: int, a: int, b: int)
    requires
        is_line(s, from, to),
        is_line(s, a, b),
        from <= a <= to,
    ensures
        a == from,
        b == to,
{
    if a > from {
        assert(s[a - 1] != '\n');
    }
    if b < to {
        assert(s[b] != '\n');
    }
    if to < b {
        assert(s[to] == '\n');
    }
}

/// Where the line that starts at `from` ends.
fn line_end(s: &Vec<char>, from: usize) -> (to: usize)
    requires
        from <= s@.len(),
        from == 0 || s@[from - 1] == '\n',
    ensures
        is_line(s@, from as int, to as int),
{
    let mut to: usize = from;
    while to < s.len() && s[to] != '\n'
        invariant
            from <= to <= s@.len(),
            forall|i: int| from <= i < to ==> #[trigger] s@[i] != '\n',
        decreases s@.len() - to,
    {
        to = to + 1;
    }
    to
}

/// Around every part of a text that holds no line feed there is a whole line.
proof fn lemma_line_around(s: Seq<char>, lo: int, hi: int) -> (line: (int, int))
    requires
        0 <= lo <= hi <= s.len(),
        forall|i: int| lo <= i < hi ==> #[trigger] s[i] != '\n',
    ensures
        line.0 <= lo,
        hi <= line.1,
        is_line(s, line.0, line.1),
    decreases lo + (s.len() - hi),
{
    if lo > 0 && s[lo - 1] != '\n' {
        lemma_line_around(s, lo - 1, hi)
    } else if hi < s.len() && s[hi] != '\n' {
        lemma_line_around(s, lo, hi + 1)
    } else {
        (lo, hi)
    }
}

/// The display is switched on exactly where the name of the preference and the word
/// for on, in quotes, both stand in the file, in either order and anywhere on their
/// line, with no line feed from the start of the one to the end of the other.
pub proof fn law_on_is_two_texts_on_one_line(data: Seq<char>)
    ensures
        some_line_switches_on(data) <==> exists|k: int, v: int|
            {
                &&& 0 <= k <= data.len()
                &&& 0 <= v <= data.len()
                &&& "aod_temporary_style"@.is_prefix_of(#[trigger] data.skip(k))
                &&& "\"true\""@.is_prefix_of(#[trigger] data.skip(v))
                &&& forall|i: int|
                    (k <= i || v <= i) && (i < k + 19 || i < v + 6) ==> #[trigger] data[i] != '\n'
            },
{
    reveal_strlit("aod_temporary_style");
    reveal_strlit("\"true\"");
    let (key, on) = (PREF_KEY@, PREF_ON@);
    if some_line_switches_on(data) {
        let (from, to) = choose|from: int, to: int| #[trigger]
            is_line(data, from, to) && switches_on(data.subrange(from, to));
        let line = data.subrange(from, to);
        let k = choose|at: int| stands_at(line, key, at);
        let v = choose|at: int| stands_at(line, on, at);
        assert(line.subrange(k, k + 19) =~= data.skip(from + k).subrange(0, 19));
        assert(line.subrange(v, v + 6) =~= data.skip(from + v).subrange(0, 6));
        assert(key.is_prefix_of(data.skip(from + k)));
        assert(on.is_prefix_of(data.skip(from + v)));
    }
    assert forall|k: int, v: int|
        {
            &&& 0 <= k <= data.len()
            &&& 0 <= v <= data.len()
            &&& key.is_prefix_of(#[trigger] data.skip(k))
            &&& on.is_prefix_of(#[trigger] data.skip(v))
            &&& forall|i: int|
                (k <= i || v <= i) && (i < k + 19 || i < v + 6) ==> #[trigger] data[i] != '\n'
        } implies some_line_switches_on(data) by {
        let lo = if k < v {
            k
        } else {
            v
        };
        let hi = if k + 19 < v + 6 {
            v + 6
        } else {
            k + 19
        };
        let (from, to) = lemma_line_around(data, lo, hi);
        let line = data.subrange(from, to);
        assert(line.subrange(k - from, k - from + 19) =~= data.skip(k).subrange(0, 19));
        assert(line.subrange(v - from, v - from + 6) =~= data.skip(v).subrange(0, 6));
        assert(stands_at(line, key, k - from));
        assert(stands_at(line, on, v - from));
        assert(is_line(data, from, to) && switches_on(line));
    }
}

/// A file that cannot be read leaves the display off. A line that switches it on does so
/// whatever other lines the file has before it and behind it.
pub proof fn law_one_line_is_enough(
    data: Option<&str>,
    before: Seq<char>,
    line: Seq<char>,
    after: Seq<char>,
)
    requires
        forall|i: int| 0 <= i < line.len() ==> #[trigger] line[i] != '\n',
    ensures
        data is None ==> !is_switched_on(data),
        is_switched_on(data) ==> data is Some && some_line_switches_on(data->0@),
        data is Some && some_line_switches_on(data->0@) ==> is_switched_on(data),
        switches_on(line) ==> some_line_switches_on(before.push('\n') + line + seq!['\n'] + after),
        switches_on(line) ==> some_line_switches_on(line),
{
    let all = before.push('\n') + line + seq!['\n'] + after;
    let from = before.len() + 1;
    let to = from + line.len();
    assert(all.subrange(from as int, to as int) =~= line);
    assert(is_line(all, from as int, to as int));
    assert(line.subrange(0, line.len() as int) =~= line);
    assert(is_line(line, 0, line.len() as int));
}

} // verus!
