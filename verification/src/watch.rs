//! Following the preference file: by the kernel's change notices where they
//! can be had, and by looking every few seconds where they cannot.
use vstd::prelude::*;
#[allow(unused_imports)]
use vstd::string::StringSliceAdditionalSpecFns;
#[allow(unused_imports)]
use vstd::utf8::{decode_utf8, encode_utf8, valid_utf8};

#[allow(unused_imports)]
use crate::bytes::{field, law_field_is_sum_of_bytes};
use crate::bytes::{u32_at, ByteOrder};
#[allow(unused_imports)]
use crate::pref::lemma_pref_path_splits;
use crate::pref::{PREF_DIR, PREF_FILE};

verus! {

/// The flag that keeps the instance for notices from programs that are started
/// later (`IN_CLOEXEC`).
pub const INOTIFY_FLAGS: i32 = 0x8_0000;

/// Notices are wanted of a file that was written and closed (`IN_CLOSE_WRITE`) and
/// of one that was moved into the directory (`IN_MOVED_TO`).
pub const WATCH_MASK: u32 = 0x88;

/// How many bytes of a notice come before the name.
pub const INOTIFY_HDR: usize = 16;

/// How many bytes of notices are read at once.
pub const INOTIFY_BUF: usize = 512;

/// How long to wait between two looks at the file, in seconds.
pub const POLL_SECS: u64 = 5;

/// How many bytes of `s` come before the first zero, or all of them.
pub open spec fn until_zero(s: Seq<u8>) -> nat
    decreases s.len(),
{
    if s.len() == 0 || s[0] == 0 {
        0
    } else {
        1 + until_zero(s.drop_first())
    }
}

/// A place that only non-zero bytes precede, and that holds a zero or is the
/// end, is where the text ends.
proof fn lemma_until_zero_is(s: Seq<u8>, k: int)
    requires
        0 <= k <= s.len(),
        forall|i: int| 0 <= i < k ==> #[trigger] s[i] != 0,
        k < s.len() ==> s[k] == 0,
    ensures
        until_zero(s) == k,
    decreases s.len(),
{
    if k > 0 {
        assert(s[0] != 0);
        let rest = s.drop_first();
        assert forall|i: int| 0 <= i < k - 1 implies #[trigger] rest[i] != 0 by {
            assert(rest[i] == s[i + 1]);
        }
        lemma_until_zero_is(rest, k - 1);
    }
}

/// The name that a notice's name field holds: the text before the first zero,
/// or no text where it is not UTF-8.
pub open spec fn name_in(field: Seq<u8>) -> Seq<char> {
    let text = field.take(until_zero(field) as int);
    if valid_utf8(text) {
        decode_utf8(text)
    } else {
        Seq::empty()
    }
}

/// How long the name field of the first notice in `s` is.
pub open spec fn name_len(order: ByteOrder, s: Seq<u8>) -> nat {
    field(order, s, 12, 4)
}

/// How many bytes the first notice in `s` takes.
pub open spec fn notice_len(order: ByteOrder, s: Seq<u8>) -> nat {
    INOTIFY_HDR as nat + name_len(order, s)
}

/// Does the first notice in `s` stand there whole, and is it about the
/// preference file?
pub open spec fn tells_of_pref(order: ByteOrder, s: Seq<u8>) -> bool {
    &&& name_len(order, s) > 0
    &&& notice_len(order, s) <= s.len()
    &&& name_in(s.subrange(INOTIFY_HDR as int, notice_len(order, s) as int)) == PREF_FILE@
}

/// What comes after the first notice in `s`.
pub open spec fn after_notice(order: ByteOrder, s: Seq<u8>) -> Seq<u8> {
    if notice_len(order, s) <= s.len() {
        s.skip(notice_len(order, s) as int)
    } else {
        Seq::empty()
    }
}

/// What comes after the first notice about the preference file, if there is
/// one.
pub open spec fn next_change(order: ByteOrder, s: Seq<u8>) -> Option<Seq<u8>>
    decreases s.len(),
{
    if s.len() < INOTIFY_HDR {
        None
    } else if tells_of_pref(order, s) {
        Some(after_notice(order, s))
    } else {
        next_change(order, after_notice(order, s))
    }
}

/// How many notices in `s` are about the preference file.
pub open spec fn changes(order: ByteOrder, s: Seq<u8>) -> nat
    decreases s.len(),
{
    if s.len() < INOTIFY_HDR {
        0
    } else if tells_of_pref(order, s) {
        1 + changes(order, after_notice(order, s))
    } else {
        changes(order, after_notice(order, s))
    }
}

/// Bytes are the UTF-8 of a name that is not empty exactly where they read as
/// that name.
proof fn lemma_name_by_bytes(field: Seq<u8>)
    ensures
        (name_in(field) == PREF_FILE@) == (field.take(until_zero(field) as int)
            == PREF_FILE.spec_bytes()),
{
    let text = field.take(until_zero(field) as int);
    lemma_pref_path_splits();
    vstd::utf8::encode_utf8_valid_utf8(PREF_FILE@);
    vstd::utf8::encode_utf8_decode_utf8(PREF_FILE@);
    if valid_utf8(text) {
        vstd::utf8::decode_utf8_encode_utf8(text);
    }
}

/// Is the name in the bytes of `buf` from `from` to `to` that of the preference
/// file?
fn names_pref_file(buf: &[u8], from: usize, to: usize) -> (yes: bool)
    requires
        from <= to <= buf@.len(),
    ensures
        yes == (name_in(buf@.subrange(from as int, to as int)) == PREF_FILE@),
{
    let target: &[u8] = PREF_FILE.as_bytes();
    let ghost field = buf@.subrange(from as int, to as int);
    let mut end: usize = from;
    while end < to && buf[end] != 0
        invariant
            from <= end <= to <= buf@.len(),
            field == buf@.subrange(from as int, to as int),
            forall|i: int| 0 <= i < end - from ==> #[trigger] field[i] != 0,
        decreases to - end,
    {
        assert(field[end - from] == buf@[end as int]);
        end = end + 1;
    }
    proof {
        if end < to {
            assert(field[end - from] == buf@[end as int]);
        }
        lemma_until_zero_is(field, end - from);
        lemma_name_by_bytes(field);
    }
    let ghost text = field.take(end - from);
    if end - from != target.len() {
        return false;
    }
    let mut i: usize = 0;
    while i < target.len()
        invariant
            from <= end <= to <= buf@.len(),
            field == buf@.subrange(from as int, to as int),
            text == field.take(end - from),
            end - from == target@.len(),
            target@ == PREF_FILE.spec_bytes(),
            (name_in(field) == PREF_FILE@) == (text == PREF_FILE.spec_bytes()),
            i <= target@.len(),
            forall|j: int| 0 <= j < i ==> #[trigger] text[j] == target@[j],
        decreases target@.len() - i,
    {
        assert(text[i as int] == buf@[from + i]);
        if buf[from + i] != target[i] {
            return false;
        }
        i = i + 1;
    }
    assert(text =~= target@);
    true
}

/// Looks in `buf`, from `from` on, for the first notice about the preference
/// file, and gives the place after it.
pub fn find_change(order: ByteOrder, buf: &[u8], from: usize) -> (found: Option<usize>)
    requires
        from <= buf@.len(),
    ensures
        match found {
            Some(after) => after <= buf@.len() && next_change(order, buf@.skip(from as int)) == Some(
                buf@.skip(after as int),
            ),
            None => next_change(order, buf@.skip(from as int)) is None,
        },
{
    let n: usize = buf.len();
    let mut off: usize = from;
    while n - off >= INOTIFY_HDR
        invariant
            n == buf@.len(),
            off <= n,
            from <= buf@.len(),
            next_change(order, buf@.skip(from as int)) == next_change(order, buf@.skip(off as int)),
        decreases n - off,
    {
        let ghost here = buf@.skip(off as int);
        let len: u32 = u32_at(order, buf, off + 12);
        assert(here.subrange(12, 16) =~= buf@.subrange(off + 12, off + 16));
        let left: usize = n - off - INOTIFY_HDR;
        if len as u64 > left as u64 {
            assert(next_change(order, Seq::<u8>::empty()) is None);
            return None;
        }
        let next: usize = off + INOTIFY_HDR + len as usize;
        assert(here.subrange(INOTIFY_HDR as int, notice_len(order, here) as int) =~= buf@.subrange(
            off + INOTIFY_HDR,
            next as int,
        ));
        assert(after_notice(order, here) =~= buf@.skip(next as int));
        if len > 0 && names_pref_file(buf, off + INOTIFY_HDR, next) {
            return Some(next);
        }
        off = next;
    }
    None
}

/// What the watcher remembers between two steps.
#[derive(Debug)]
pub struct PrefWatch {
    /// The byte order of the machine.
    pub order: ByteOrder,
    /// Is the file looked at every few seconds, for want of notices?
    pub polling: bool,
    /// The notices that were read last.
    pub pending: Vec<u8>,
    /// How many bytes of them have been gone through.
    pub off: usize,
}

/// What the watcher remembers, as a mathematical value: the byte order, whether it
/// polls, and the notices that it has not gone through.
pub struct WatchState {
    pub order: ByteOrder,
    pub polling: bool,
    pub unread: Seq<u8>,
}

impl View for PrefWatch {
    type V = WatchState;

    open spec fn view(&self) -> WatchState {
        WatchState {
            order: self.order,
            polling: self.polling,
            unread: self.pending@.skip(self.off as int),
        }
    }
}

/// What happened after the last action.
#[derive(Debug)]
pub enum WatchEvent {
    /// Watching was asked for. `ok` says whether the name of the directory can be
    /// handed to the kernel.
    Started { ok: bool },
    /// An instance for notices was asked for; the kernel answered with `fd`.
    Opened { fd: i32 },
    /// A watch on the directory was asked for; the kernel answered with `wd`.
    Watched { wd: i32 },
    /// Notices were read; the kernel put `n` bytes at the start of `buf`, or
    /// answered with a number that is not positive.
    Received { n: isize, buf: Vec<u8> },
    /// The preference was read and passed on. `keep` says whether to go on
    /// watching.
    Answered { keep: bool },
    /// The pause is over.
    Rested,
}

/// What to do next.
#[derive(Debug, Clone, Copy, PartialEq, Eq)]
pub enum WatchNext {
    /// Ask for an instance for notices, with these flags.
    OpenInotify { flags: i32 },
    /// Ask for a watch on `dir`, for the changes in `mask`.
    AddWatch { dir: &'static str, mask: u32 },
    /// Read notices, no more than `limit` bytes of them.
    ReadEvents { limit: usize },
    /// Read the preference and pass it on.
    CheckPref,
    /// Wait for that many seconds.
    Rest { secs: u64 },
    /// Watching is over.
    Stop,
}

/// What to do: close the instance for notices where `close` says so, then
/// `next`.
#[derive(Debug, Clone, Copy, PartialEq, Eq)]
pub struct WatchAction {
    pub close: bool,
    pub next: WatchNext,
}

/// Doing `next`, and closing nothing.
pub open spec fn go(next: WatchNext) -> WatchAction {
    WatchAction { close: false, next }
}

/// Asking for an instance for notices.
pub open spec fn open_inotify() -> WatchNext {
    WatchNext::OpenInotify { flags: INOTIFY_FLAGS }
}

/// Asking for a watch on the directory of the preference file, for files that were
/// written or moved there.
pub open spec fn add_watch() -> WatchNext {
    WatchNext::AddWatch { dir: PREF_DIR, mask: WATCH_MASK }
}

/// Reading notices.
pub open spec fn read_events() -> WatchNext {
    WatchNext::ReadEvents { limit: INOTIFY_BUF }
}

/// Going over to looking at the file every few seconds, beginning now.
pub open spec fn start_polling(state: WatchState, close: bool) -> (WatchState, WatchAction) {
    (WatchState { polling: true, ..state }, WatchAction { close, next: WatchNext::CheckPref })
}

/// Going through the notices in `s`: the preference is checked after the first
/// one about its file, and more are read where there is none.
pub open spec fn scan(state: WatchState, s: Seq<u8>) -> (WatchState, WatchAction) {
    match next_change(state.order, s) {
        Some(rest) => (WatchState { unread: rest, ..state }, go(WatchNext::CheckPref)),
        None => (WatchState { unread: Seq::empty(), ..state }, go(read_events())),
    }
}

/// One turn of looking at the file every few seconds: it ends where the answer
/// says so, waits after every other answer, and looks again after the wait.
pub open spec fn poll_step(event: WatchEvent) -> WatchNext {
    match event {
        WatchEvent::Answered { keep } => if keep {
            WatchNext::Rest { secs: POLL_SECS }
        } else {
            WatchNext::Stop
        },
        _ => WatchNext::CheckPref,
    }
}

/// One turn of following the file.
pub open spec fn watch_step(state: WatchState, event: WatchEvent) -> (WatchState, WatchAction) {
    if state.polling {
        (state, go(poll_step(event)))
    } else {
        match event {
            WatchEvent::Started { ok } => if ok {
                (state, go(open_inotify()))
            } else {
                start_polling(state, false)
            },
            WatchEvent::Opened { fd } => if fd >= 0 {
                (state, go(add_watch()))
            } else {
                start_polling(state, false)
            },
            WatchEvent::Watched { wd } => if wd >= 0 {
                (state, go(read_events()))
            } else {
                start_polling(state, true)
            },
            WatchEvent::Received { n, buf } => if n > 0 {
                scan(state, buf@.take(n as int))
            } else {
                (state, go(read_events()))
            },
            WatchEvent::Answered { keep } => if keep {
                scan(state, state.unread)
            } else {
                (state, WatchAction { close: true, next: WatchNext::Stop })
            },
            WatchEvent::Rested => (state, go(read_events())),
        }
    }
}

/// Can `event` follow an action of a watcher in `state`? Only polling answers
/// with a pause, and it asks the kernel for nothing.
pub open spec fn can_follow(state: WatchState, event: WatchEvent) -> bool {
    match event {
        WatchEvent::Answered { .. } => true,
        WatchEvent::Rested => state.polling,
        WatchEvent::Received { n, buf } => !state.polling && n <= buf@.len(),
        _ => !state.polling,
    }
}

/// A watcher that has seen nothing yet.
pub open spec fn unstarted(order: ByteOrder) -> WatchState {
    WatchState { order, polling: false, unread: Seq::empty() }
}

/// What the kernel is asked to watch, and for which changes.
pub fn watch_request() -> (request: (&'static str, u32))
    ensures
        request == (PREF_DIR, WATCH_MASK),
        request.0@ == PREF_DIR@,
        request.1 == 0x88,
{
    (PREF_DIR, WATCH_MASK)
}

/// One turn of looking at the file every few seconds.
pub fn poll_pref_loop(event: &WatchEvent) -> (next: WatchNext)
    requires
        event is Answered || event is Rested,
    ensures
        next == poll_step(*event),
{
    match event {
        WatchEvent::Answered { keep } => if *keep {
            WatchNext::Rest { secs: POLL_SECS }
        } else {
            WatchNext::Stop
        },
        _ => WatchNext::CheckPref,
    }
}

impl PrefWatch {
    /// Has the watcher gone through no more than what was read?
    pub open spec fn wf(self) -> bool {
        self.off <= self.pending@.len()
    }

    /// A watcher that has seen nothing yet, on a machine of that byte order.
    pub fn new(order: ByteOrder) -> (watch: PrefWatch)
        ensures
            watch.wf(),
            watch@ == unstarted(order),
    {
        let watch = PrefWatch { order, polling: false, pending: Vec::new(), off: 0 };
        assert(watch@.unread =~= Seq::empty());
        watch
    }

    /// Goes through the notices that are pending, up to the next one about the
    /// preference file.
    fn scan_pending(&mut self) -> (action: WatchAction)
        requires
            old(self).wf(),
        ensures
            final(self).wf(),
            (final(self)@, action) == scan(old(self)@, old(self)@.unread),
    {
        match find_change(self.order, self.pending.as_slice(), self.off) {
            Some(after) => {
                self.off = after;
                WatchAction { close: false, next: WatchNext::CheckPref }
            },
            None => {
                self.off = self.pending.len();
                assert(self@.unread =~= Seq::empty());
                WatchAction { close: false, next: WatchNext::ReadEvents { limit: INOTIFY_BUF } }
            },
        }
    }

    /// One turn of following the preference file. Where the kernel gives no
    /// notices, the watcher goes over to polling and stays there.
    pub fn watch_pref_loop(&mut self, event: WatchEvent) -> (action: WatchAction)
        requires
            old(self).wf(),
            can_follow(old(self)@, event),
        ensures
            final(self).wf(),
            (final(self)@, action) == watch_step(old(self)@, event),
    {
        if self.polling {
            return WatchAction { close: false, next: poll_pref_loop(&event) };
        }
        match event {
            WatchEvent::Started { ok } => if ok {
                WatchAction { close: false, next: WatchNext::OpenInotify { flags: INOTIFY_FLAGS } }
            } else {
                self.polling = true;
                WatchAction { close: false, next: WatchNext::CheckPref }
            },
            WatchEvent::Opened { fd } => if fd < 0 {
                self.polling = true;
                WatchAction { close: false, next: WatchNext::CheckPref }
            } else {
                let (dir, mask) = watch_request();
                WatchAction { close: false, next: WatchNext::AddWatch { dir, mask } }
            },
            WatchEvent::Watched { wd } => if wd < 0 {
                self.polling = true;
                WatchAction { close: true, next: WatchNext::CheckPref }
            } else {
                WatchAction { close: false, next: WatchNext::ReadEvents { limit: INOTIFY_BUF } }
            },
            WatchEvent::Received { n, buf } => if n <= 0 {
                WatchAction { close: false, next: WatchNext::ReadEvents { limit: INOTIFY_BUF } }
            } else {
                let mut data = buf;
                let ghost all = data@;
                data.truncate(n as usize);
                self.pending = data;
                self.off = 0;
                assert(self@.unread =~= all.take(n as int));
                self.scan_pending()
            },
            WatchEvent::Answered { keep } => if keep {
                self.scan_pending()
            } else {
                WatchAction { close: true, next: WatchNext::Stop }
            },
            WatchEvent::Rested => WatchAction { close: false, next: WatchNext::ReadEvents { limit: INOTIFY_BUF } },
        }
    }
}

/// Every notice is passed, even one that claims no name: what comes after it is
/// shorter by a header at least, so that no notice can hold the scan up.
pub proof fn law_scan_advances(order: ByteOrder, s: Seq<u8>)
    requires
        s.len() >= INOTIFY_HDR,
    ensures
        after_notice(order, s).len() + INOTIFY_HDR <= s.len(),
{
}

/// Notices are read one after the other: a whole notice at the front is judged
/// by itself, whatever follows it.
pub proof fn law_notices_are_separate(order: ByteOrder, notice: Seq<u8>, rest: Seq<u8>)
    requires
        notice.len() >= INOTIFY_HDR,
        notice.len() == notice_len(order, notice),
    ensures
        next_change(order, notice + rest) == if tells_of_pref(order, notice) {
            Some(rest)
        } else {
            next_change(order, rest)
        },
        changes(order, notice + rest) == changes(order, rest) + if tells_of_pref(order, notice) {
            1nat
        } else {
            0nat
        },
{
    let all = notice + rest;
    assert(all.subrange(12, 16) =~= notice.subrange(12, 16));
    assert(all.subrange(INOTIFY_HDR as int, notice.len() as int) =~= notice.subrange(
        INOTIFY_HDR as int,
        notice.len() as int,
    ));
    assert(after_notice(order, all) =~= rest);
}

/// The notices that a scan stops at are those that are counted, one by one.
proof fn lemma_changes_step(order: ByteOrder, s: Seq<u8>)
    ensures
        match next_change(order, s) {
            Some(rest) => changes(order, s) == 1 + changes(order, rest) && rest.len() < s.len(),
            None => changes(order, s) == 0,
        },
    decreases s.len(),
{
    if s.len() >= INOTIFY_HDR && !tells_of_pref(order, s) {
        lemma_changes_step(order, after_notice(order, s));
    }
}

/// How often a watcher in `state` checks the preference before it reads more
/// notices, where it is told each time to go on.
pub open spec fn checks_before_read(state: WatchState) -> nat
    decreases state.unread.len(),
{
    let (next, action) = watch_step(state, WatchEvent::Answered { keep: true });
    if action.next is CheckPref && next.unread.len() < state.unread.len() {
        1 + checks_before_read(next)
    } else {
        0
    }
}

/// A watcher that is told to go on checks the preference once for each notice
/// about its file that is left, and for no other.
proof fn lemma_one_check_per_change(state: WatchState)
    requires
        !state.polling,
    ensures
        checks_before_read(state) == changes(state.order, state.unread),
    decreases state.unread.len(),
{
    lemma_changes_step(state.order, state.unread);
    if let Some(rest) = next_change(state.order, state.unread) {
        lemma_one_check_per_change(WatchState { unread: rest, ..state });
    }
}

/// Of the notices that were read, the preference is checked once for each one
/// about its file and for no other, as long as each answer is to go on.
pub proof fn law_one_check_per_change(state: WatchState, n: isize, buf: Vec<u8>)
    requires
        !state.polling,
        0 < n <= buf@.len(),
    ensures
        ({
            let (next, action) = watch_step(state, WatchEvent::Received { n, buf });
            let count = changes(state.order, buf@.take(n as int));
            if count == 0 {
                action == go(read_events())
            } else {
                action == go(WatchNext::CheckPref) && 1 + checks_before_read(next) == count
            }
        }),
{
    let read = buf@.take(n as int);
    lemma_changes_step(state.order, read);
    if let Some(rest) = next_change(state.order, read) {
        lemma_one_check_per_change(WatchState { unread: rest, ..state });
    }
}

/// A watcher that polls goes on polling, whatever happens.
pub proof fn law_polling_is_for_good(state: WatchState, event: WatchEvent)
    requires
        state.polling,
        can_follow(state, event),
    ensures
        watch_step(state, event).0.polling,
        !watch_step(state, event).1.close,
{
}

/// Watching ends exactly when an answer says so, and the instance for notices
/// is closed then and where its watch was refused.
pub proof fn law_watch_ends_on_answer(state: WatchState, event: WatchEvent)
    requires
        can_follow(state, event),
    ensures
        watch_step(state, event).1.next is Stop <==> event == (WatchEvent::Answered {
            keep: false,
        }),
        watch_step(state, event).1.close <==> !state.polling && (event == (
        WatchEvent::Answered { keep: false }) || (event matches WatchEvent::Watched { wd }
            && wd < 0)),
{
}

/// While there are notices, nothing waits: a pause is made by polling only, so a
/// check follows its notice at once.
pub proof fn law_no_pause_while_watching(state: WatchState, event: WatchEvent)
    requires
        can_follow(state, event),
        !state.polling,
    ensures
        !(watch_step(state, event).1.next is Rest),
{
}

/// Does `event` say what became of `next`?
pub open spec fn answers(next: WatchNext, event: WatchEvent) -> bool {
    match next {
        WatchNext::OpenInotify { .. } => event is Opened,
        WatchNext::AddWatch { .. } => event is Watched,
        WatchNext::ReadEvents { .. } => event matches WatchEvent::Received { n, buf } && n
            <= buf@.len(),
        WatchNext::CheckPref => event is Answered,
        WatchNext::Rest { .. } => event is Rested,
        WatchNext::Stop => false,
    }
}

/// What a watcher remembers, and does next, after `events`.
pub open spec fn watch_run(order: ByteOrder, events: Seq<WatchEvent>) -> (WatchState, WatchAction)
    decreases events.len(),
{
    if events.len() <= 1 {
        watch_step(unstarted(order), events[0])
    } else {
        watch_step(watch_run(order, events.drop_last()).0, events.last())
    }
}

/// Are `events` a whole run: a start, and after it one answer to each action?
pub open spec fn is_watch_run(order: ByteOrder, events: Seq<WatchEvent>) -> bool
    decreases events.len(),
{
    if events.len() == 0 {
        false
    } else if events.len() == 1 {
        events[0] is Started
    } else {
        let front = events.drop_last();
        is_watch_run(order, front) && answers(watch_run(order, front).1.next, events.last())
    }
}

/// How many watches are asked for over `events`.
pub open spec fn watches_asked(order: ByteOrder, events: Seq<WatchEvent>) -> nat
    decreases events.len(),
{
    if events.len() == 0 {
        0
    } else {
        watches_asked(order, events.drop_last()) + if watch_run(order, events).1.next is AddWatch {
            1nat
        } else {
            0nat
        }
    }
}

/// An answer to the last action can always be taken: a driver that does what it is
/// told, and says what became of it, never leaves the protocol.
pub proof fn law_answers_can_follow(order: ByteOrder, events: Seq<WatchEvent>, event: WatchEvent)
    requires
        is_watch_run(order, events),
        answers(watch_run(order, events).1.next, event),
    ensures
        can_follow(watch_run(order, events).0, event),
{
    lemma_run_phase(order, events);
}

/// A watcher asks the kernel for something only while it does not poll, and makes
/// a pause only while it does; an instance is asked for at the start only.
proof fn lemma_run_phase(order: ByteOrder, events: Seq<WatchEvent>)
    requires
        is_watch_run(order, events),
    ensures
        ({
            let (state, action) = watch_run(order, events);
            &&& action.next is OpenInotify || action.next is AddWatch || action.next is ReadEvents
                ==> !state.polling
            &&& action.next is Rest ==> state.polling
            &&& action.next is OpenInotify ==> events.len() == 1
            &&& action.next is AddWatch ==> events.len() == 2
        }),
    decreases events.len(),
{
    if events.len() > 1 {
        lemma_run_phase(order, events.drop_last());
    }
}

/// The one request for a watch names the directory of the preference file, and the
/// two changes by which a file there takes on new content.
pub proof fn law_watch_is_on_preference_directory(state: WatchState, event: WatchEvent)
    ensures
        watch_step(state, event).1.next matches WatchNext::AddWatch { dir, mask } ==> dir@
            == PREF_DIR@ && mask == 0x88,
{
}

/// Over a whole run the kernel is asked for one watch where it gave an instance for
/// notices, and for none otherwise.
pub proof fn law_one_watch_is_asked_for(order: ByteOrder, events: Seq<WatchEvent>)
    requires
        is_watch_run(order, events),
    ensures
        watches_asked(order, events) == if events.len() >= 2 && (
        events[1] matches WatchEvent::Opened { fd } && fd >= 0) {
            1nat
        } else {
            0nat
        },
    decreases events.len(),
{
    lemma_run_phase(order, events);
    let front = events.drop_last();
    if events.len() == 1 {
        assert(watches_asked(order, front) == 0);
    } else {
        lemma_run_phase(order, front);
        law_one_watch_is_asked_for(order, front);
        if events.len() > 2 {
            assert(front[1] == events[1]);
        }
    }
}

/// Only non-zero bytes stand before the end of a text, and its end holds a zero or is
/// the end of the field.
proof fn lemma_until_zero(s: Seq<u8>)
    ensures
        until_zero(s) <= s.len(),
        forall|i: int| 0 <= i < until_zero(s) ==> #[trigger] s[i] != 0,
        until_zero(s) < s.len() ==> s[until_zero(s) as int] == 0,
    decreases s.len(),
{
    if s.len() > 0 && s[0] != 0 {
        let rest = s.drop_first();
        lemma_until_zero(rest);
        assert forall|i: int| 0 <= i < until_zero(s) implies #[trigger] s[i] != 0 by {
            if i > 0 {
                assert(s[i] == rest[i - 1]);
            }
        }
    }
}

/// A name field is that of the preference file exactly where it starts with the 28
/// characters of the file's name, and ends there or goes on with a zero.
pub proof fn law_name_field_by_bytes(name: Seq<u8>)
    ensures
        name_in(name) == PREF_FILE@ <==> {
            &&& name.len() >= 28
            &&& forall|i: int|
                0 <= i < 28 ==> #[trigger] name[i] as char == "com.miui.aod_preferences.xml"@[i]
            &&& name.len() == 28 || name[28] == 0
        },
{
    reveal_strlit("com.miui.aod_preferences.xml");
    let file = "com.miui.aod_preferences.xml"@;
    let text = name.take(until_zero(name) as int);
    vstd::utf8::is_ascii_chars_encode_utf8(PREF_FILE@);
    lemma_until_zero(name);
    lemma_name_by_bytes(name);
    let bytes = PREF_FILE.spec_bytes();
    assert(bytes.len() == 28);
    assert forall|i: int| 0 <= i < 28 implies #[trigger] bytes[i] != 0 && bytes[i] as char
        == file[i] by {}
    if text == bytes {
        assert forall|i: int| 0 <= i < 28 implies #[trigger] name[i] as char == file[i] by {
            assert(text[i] == name[i]);
        }
    }
    if name.len() >= 28 && (forall|i: int|
        0 <= i < 28 ==> #[trigger] name[i] as char == file[i]) && (name.len() == 28 || name[28]
        == 0) {
        assert forall|i: int| 0 <= i < 28 implies #[trigger] name[i] != 0 && name[i]
            == bytes[i] by {
            assert(name[i] as char == file[i]);
        }
        lemma_until_zero_is(name, 28);
        assert(text =~= bytes);
    }
}

/// A whole notice is twelve bytes of head, four bytes that say how long the name field
/// is, and the name field. It is a change exactly where the name field holds the name
/// of the preference file, ended by a zero or by the field's end, whatever the twelve
/// bytes are (the watch, the mask and the cookie) and whatever follows the notice. A
/// scan that is stopped by it goes on right behind it; any other notice is passed over.
pub proof fn law_change_is_told_by_name_alone(
    order: ByteOrder,
    head: Seq<u8>,
    size: Seq<u8>,
    name: Seq<u8>,
    rest: Seq<u8>,
)
    requires
        head.len() == 12,
        size.len() == 4,
        name.len() == match order {
            ByteOrder::Little => size[0] + 256 * size[1] + 0x1_0000 * size[2] + 0x100_0000
                * size[3],
            ByteOrder::Big => size[3] + 256 * size[2] + 0x1_0000 * size[1] + 0x100_0000 * size[0],
        },
    ensures
        ({
            let all = head + size + name + rest;
            if {
                &&& name.len() >= 28
                &&& forall|i: int|
                    0 <= i < 28 ==> #[trigger] name[i] as char
                        == "com.miui.aod_preferences.xml"@[i]
                &&& name.len() == 28 || name[28] == 0
            } {
                &&& next_change(order, all) == Some(rest)
                &&& changes(order, all) == changes(order, rest) + 1
            } else {
                &&& next_change(order, all) == next_change(order, rest)
                &&& changes(order, all) == changes(order, rest)
            }
        }),
{
    let all = head + size + name + rest;
    law_field_is_sum_of_bytes(all, 12);
    assert(all[12] == size[0] && all[13] == size[1] && all[14] == size[2] && all[15] == size[3]);
    assert(name_len(order, all) == name.len());
    assert(all.subrange(16, 16 + name.len() as int) =~= name);
    assert(after_notice(order, all) =~= rest);
    law_name_field_by_bytes(name);
    reveal_strlit("com.miui.aod_preferences.xml");
}

/// Bytes that are too few for a head, or for the name field that the head announces,
/// tell of no change.
pub proof fn law_cut_notice_is_no_change(order: ByteOrder, s: Seq<u8>)
    requires
        s.len() < 16 || s.len() < 16 + match order {
            ByteOrder::Little => s[12] + 256 * s[13] + 0x1_0000 * s[14] + 0x100_0000 * s[15],
            ByteOrder::Big => s[15] + 256 * s[14] + 0x1_0000 * s[13] + 0x100_0000 * s[12],
        },
    ensures
        next_change(order, s) is None,
        changes(order, s) == 0,
{
    if s.len() >= 16 {
        law_field_is_sum_of_bytes(s, 12);
        assert(next_change(order, Seq::<u8>::empty()) is None);
        assert(changes(order, Seq::<u8>::empty()) == 0);
    }
}

/// Notices that were read lead to a check of the preference as soon as one about its
/// file stands among them, right behind the ones that are about something else. What
/// follows it is kept, and gone through before more is read.
pub proof fn law_received_change_is_checked(
    state: WatchState,
    head: Seq<u8>,
    size: Seq<u8>,
    name: Seq<u8>,
    rest: Seq<u8>,
    n: isize,
    buf: Vec<u8>,
)
    requires
        !state.polling,
        head.len() == 12,
        size.len() == 4,
        name.len() == match state.order {
            ByteOrder::Little => size[0] + 256 * size[1] + 0x1_0000 * size[2] + 0x100_0000
                * size[3],
            ByteOrder::Big => size[3] + 256 * size[2] + 0x1_0000 * size[1] + 0x100_0000 * size[0],
        },
        name.len() >= 28,
        forall|i: int|
            0 <= i < 28 ==> #[trigger] name[i] as char == "com.miui.aod_preferences.xml"@[i],
        name.len() == 28 || name[28] == 0,
        0 < n <= buf@.len(),
        buf@.take(n as int) == head + size + name + rest,
    ensures
        ({
            let (after, action) = watch_step(state, WatchEvent::Received { n, buf });
            &&& action.next is CheckPref
            &&& !action.close
            &&& after == (WatchState { unread: rest, ..state })
        }),
{
    law_change_is_told_by_name_alone(state.order, head, size, name, rest);
}

/// Where the kernel gives notices, a scan of them ends in a check of the preference
/// where a change is found, with what follows the change kept; otherwise it ends in
/// the next read, with nothing kept. What is scanned is what was read just now, and
/// after a check what is left of that. A read without bytes is tried again.
pub proof fn law_scan_ends_in_check_or_read(state: WatchState, event: WatchEvent)
    requires
        !state.polling,
        event is Received || event is Answered,
        event != (WatchEvent::Answered { keep: false }),
        event matches WatchEvent::Received { n, buf } ==> n <= buf@.len(),
    ensures
        ({
            let (after, action) = watch_step(state, event);
            let scanned = match event {
                WatchEvent::Received { n, buf } => if n > 0 {
                    Some(buf@.take(n as int))
                } else {
                    None
                },
                _ => Some(state.unread),
            };
            &&& after.order == state.order
            &&& !after.polling
            &&& !action.close
            &&& action.next is CheckPref || action.next == (WatchNext::ReadEvents { limit: 512 })
            &&& scanned is None ==> after == state && !(action.next is CheckPref)
            &&& scanned matches Some(s) ==> {
                &&& action.next is CheckPref <==> next_change(state.order, s) is Some
                &&& action.next is CheckPref ==> next_change(state.order, s) == Some(after.unread)
                &&& !(action.next is CheckPref) ==> after.unread.len() == 0
            }
        }),
{
}

/// The kernel is asked for an instance for notices, then for a watch on the directory
/// of the preference file, then for notices. The first of these that is refused makes
/// the watcher poll for good, beginning with a check; nothing else does. An instance
/// that is there is closed at that.
pub proof fn law_refusal_leads_to_polling(state: WatchState, event: WatchEvent)
    requires
        !state.polling,
    ensures
        ({
            let (after, action) = watch_step(state, event);
            let refused = match event {
                WatchEvent::Started { ok } => !ok,
                WatchEvent::Opened { fd } => fd < 0,
                WatchEvent::Watched { wd } => wd < 0,
                _ => false,
            };
            &&& after.order == state.order
            &&& after.polling <==> refused
            &&& refused ==> action.next is CheckPref && after.unread == state.unread
            &&& refused && action.close <==> refused && event is Watched
            &&& event is Started && !refused ==> after == state && !action.close && action.next == (
            WatchNext::OpenInotify { flags: 0x8_0000 })
            &&& event is Opened && !refused ==> after == state && !action.close && (
            action.next matches WatchNext::AddWatch { dir, mask } && dir@
                == "/data/user_de/0/com.miui.aod/shared_prefs"@ && mask == 0x88)
            &&& event is Watched && !refused ==> after == state && !action.close && action.next == (
            WatchNext::ReadEvents { limit: 512 })
            &&& event == (WatchEvent::Answered { keep: false }) ==> after == state && action.close
                && action.next is Stop
        }),
{
}

/// A watcher that polls checks the preference, waits five seconds after each answer to
/// go on, and checks again; it stops at the first answer to stop, and never changes.
pub proof fn law_polling_checks_every_five_seconds(state: WatchState, event: WatchEvent)
    requires
        state.polling,
        event is Answered || event is Rested,
    ensures
        ({
            let (after, action) = watch_step(state, event);
            &&& after == state
            &&& !action.close
            &&& action.next == poll_step(event)
            &&& action.next is CheckPref <==> event is Rested
            &&& action.next == (WatchNext::Rest { secs: 5 }) <==> event == (WatchEvent::Answered {
                keep: true,
            })
            &&& action.next is Stop <==> event == (WatchEvent::Answered { keep: false })
        }),
{
}

/// A watcher begins without notices and without polling, and what it has not gone
/// through is what was read last, without what it has gone through.
pub proof fn law_watch_keeps_what_was_not_gone_through(watch: PrefWatch, order: ByteOrder)
    requires
        watch.wf(),
    ensures
        watch@.order == watch.order,
        watch@.polling == watch.polling,
        watch@.unread.len() == watch.pending@.len() - watch.off,
        forall|i: int|
            0 <= i < watch@.unread.len() ==> #[trigger] watch@.unread[i] == watch.pending@[watch.off
                + i],
        unstarted(order).order == order,
        !unstarted(order).polling,
        unstarted(order).unread.len() == 0,
{
}

} // verus!
