use hyperfusion_aod::bytes::ByteOrder;
use hyperfusion_aod::nodes::Node;
use hyperfusion_aod::pref::{read_aod_enabled, PREF_DIR, PREF_FILE, PREF_PATH};
use hyperfusion_aod::startup::{keep_waiting, start_up, StartupAction, StartupEvent};
use hyperfusion_aod::suspend::get_suspend_state;
use hyperfusion_aod::touch::{TouchAction, TouchEvent, TouchSearch};
use hyperfusion_aod::watch::{
    find_change, poll_pref_loop, watch_request, PrefWatch, WatchAction, WatchEvent, WatchNext,
    INOTIFY_FLAGS, WATCH_MASK,
};
use std::path::Path;

fn go(next: WatchNext) -> WatchAction {
    WatchAction { close: false, next }
}

fn read_more() -> WatchAction {
    go(WatchNext::ReadEvents { limit: 512 })
}

fn notice(name: &[u8], padded: usize) -> Vec<u8> {
    let mut out = Vec::new();
    out.extend_from_slice(&1i32.to_le_bytes());
    out.extend_from_slice(&8u32.to_le_bytes());
    out.extend_from_slice(&0u32.to_le_bytes());
    out.extend_from_slice(&(padded as u32).to_le_bytes());
    out.extend_from_slice(name);
    out.resize(16 + padded, 0);
    out
}

fn pref_notice() -> Vec<u8> {
    notice(PREF_FILE.as_bytes(), 32)
}

fn watching() -> PrefWatch {
    let mut watch = PrefWatch::new(ByteOrder::Little);
    assert_eq!(
        watch.watch_pref_loop(WatchEvent::Started { ok: true }),
        go(WatchNext::OpenInotify { flags: libc::IN_CLOEXEC })
    );
    assert_eq!(
        watch.watch_pref_loop(WatchEvent::Opened { fd: 3 }),
        go(WatchNext::AddWatch {
            dir: "/data/user_de/0/com.miui.aod/shared_prefs",
            mask: libc::IN_CLOSE_WRITE | libc::IN_MOVED_TO,
        })
    );
    assert_eq!(watch.watch_pref_loop(WatchEvent::Watched { wd: 1 }), read_more());
    watch
}

fn receive(watch: &mut PrefWatch, data: &[u8]) -> WatchAction {
    let mut buf = data.to_vec();
    let n = buf.len() as isize;
    buf.resize(512, 0xaa);
    watch.watch_pref_loop(WatchEvent::Received { n, buf })
}

#[test]
fn pref_path_splits_as_paths_do() {
    let path = Path::new(PREF_PATH);
    assert_eq!(path.parent().and_then(|p| p.to_str()), Some(PREF_DIR));
    assert_eq!(path.file_name().and_then(|n| n.to_str()), Some(PREF_FILE));
}

#[test]
fn watch_is_on_the_directory_for_writes_and_moves() {
    assert_eq!(watch_request(), (PREF_DIR, libc::IN_CLOSE_WRITE | libc::IN_MOVED_TO));
    assert_eq!(WATCH_MASK, 0x88);
    assert_eq!(INOTIFY_FLAGS, libc::IN_CLOEXEC);
}

#[test]
fn notices_are_read_in_the_order_of_the_machine() {
    let mut data = pref_notice();
    assert_eq!(find_change(ByteOrder::Little, &data, 0), Some(48));
    assert_eq!(find_change(ByteOrder::Big, &data, 0), None);
    data[12..16].copy_from_slice(&32u32.to_be_bytes());
    assert_eq!(find_change(ByteOrder::Little, &data, 0), None);
    assert_eq!(find_change(ByteOrder::Big, &data, 0), Some(48));
    let mut watch = PrefWatch::new(ByteOrder::Big);
    assert_eq!(
        watch.watch_pref_loop(WatchEvent::Received { n: 48, buf: data }),
        go(WatchNext::CheckPref)
    );
}

#[test]
fn node_paths_are_those_of_the_kernel() {
    assert_eq!(Node::Backlight.path(), "/sys/class/backlight/panel0-backlight/brightness");
    assert_eq!(Node::WakeLock.path(), "/sys/power/wake_lock");
    assert_eq!(Node::WakeUnlock.path(), "/sys/power/wake_unlock");
}

#[test]
fn preference_needs_key_and_value_on_one_line() {
    for text in [
        "",
        "\n",
        "<boolean name=\"aod_temporary_style\" value=\"true\" />",
        "<map>\n    <boolean name=\"aod_temporary_style\" value=\"true\" />\n</map>\n",
        "<map>\r\n<boolean name=\"aod_temporary_style\" value=\"true\" />\r\n</map>",
        "<boolean name=\"aod_temporary_style\" value=\"false\" />",
        "<boolean name=\"aod_temporary_style\"\n value=\"true\" />",
        "aod_temporary_style\n\"true\"",
        "\"true\" aod_temporary_style",
        "aod_temporary_style true",
        "aod_temporary_styl \"true\"",
        "\"true\"\naod_temporary_style\n\naod_temporary_style \"true\"",
        "x\"true\"aod_temporary_stylex\n",
        "aod_temporary_style\u{85}\"true\"",
        "aod_temporary_style\r\"true\"",
        "日本 aod_temporary_style 日本 \"true\"",
    ] {
        let expected = text
            .lines()
            .any(|l| l.contains("aod_temporary_style") && l.contains("\"true\""));
        assert_eq!(read_aod_enabled(Some(text)), expected, "{:?}", text);
    }
    assert!(read_aod_enabled(Some("a\naod_temporary_style=\"true\"")));
    assert!(!read_aod_enabled(Some("aod_temporary_style\n\"true\"")));
}

#[test]
fn unreadable_preference_is_off() {
    assert!(!read_aod_enabled(None));
}

#[test]
fn suspend_state_reads_as_std_does() {
    for text in [
        "0", "1", "1\n", " 1 ", "\t-7\r\n", "+5", "-0", "+", "-", "", " ", "\n", "--1", "+-1", "1 2",
        "0x1", "2147483647", "2147483648", "-2147483648", "-2147483649", "99999999999999999999",
        "-99999999999999999999", "00000000000000000001", "1a", "a1", "\u{a0}3\u{3000}",
        "\u{2003}4\u{85}", "\u{200b}4", "٣", "1\u{0}", "\u{1680}9\u{205f}", "\u{2028}8\u{202f}",
        "\u{feff}1", "\u{1c}1", "+0012\u{b}\u{c}",
    ] {
        let expected: i32 = text.trim().parse().unwrap_or(0);
        assert_eq!(get_suspend_state(Some(text)), expected, "{:?}", text);
    }
    assert_eq!(get_suspend_state(Some(" -12 \n")), -12);
    assert_eq!(get_suspend_state(Some("2147483648")), 0);
}

#[test]
fn unreadable_suspend_state_is_zero() {
    assert_eq!(get_suspend_state(None), 0);
}

#[test]
fn white_space_is_that_of_unicode() {
    for c in (0..=0x10ffffu32).filter_map(char::from_u32) {
        if c.is_whitespace() || c < '\u{3000}' {
            let text = format!("{}5{}", c, c);
            let expected: i32 = text.trim().parse().unwrap_or(0);
            assert_eq!(get_suspend_state(Some(&text)), expected, "{:?}", text);
        }
    }
}

#[test]
fn watch_checks_once_per_change() {
    let mut watch = watching();
    let mut data = pref_notice();
    data.extend(notice(b"other.xml", 16));
    data.extend(pref_notice());
    data.extend(notice(b"", 0));
    data.extend(notice(PREF_FILE.as_bytes(), PREF_FILE.len()));
    assert_eq!(receive(&mut watch, &data), go(WatchNext::CheckPref));
    assert_eq!(
        watch.watch_pref_loop(WatchEvent::Answered { keep: true }),
        go(WatchNext::CheckPref)
    );
    assert_eq!(
        watch.watch_pref_loop(WatchEvent::Answered { keep: true }),
        go(WatchNext::CheckPref)
    );
    assert_eq!(
        watch.watch_pref_loop(WatchEvent::Answered { keep: true }),
        read_more()
    );
}

#[test]
fn watch_passes_over_other_files() {
    let mut watch = watching();
    for data in [
        notice(b"com.miui.aod_preferences.xml.bak", 48),
        notice(b"com.miui.aod_preferences.xm", 32),
        notice(b"\0com.miui.aod_preferences.xml", 32),
        notice(b"\xffcom.miui.aod_preferences.xml", 32),
        notice(b"Com.miui.aod_preferences.xml", 32),
        notice(b"", 0),
        vec![0; 512],
        vec![1; 15],
        vec![0xff; 512],
    ] {
        assert_eq!(receive(&mut watch, &data), read_more());
    }
}

#[test]
fn name_ends_at_the_first_zero() {
    let mut watch = watching();
    let mut name = PREF_FILE.as_bytes().to_vec();
    name.push(0);
    name.extend_from_slice(b"rest");
    assert_eq!(receive(&mut watch, &notice(&name, 48)), go(WatchNext::CheckPref));
}

#[test]
fn truncated_notice_is_not_read() {
    let mut watch = watching();
    let whole = pref_notice();
    assert_eq!(receive(&mut watch, &whole[..whole.len() - 1]), read_more());
    assert_eq!(receive(&mut watch, &whole), go(WatchNext::CheckPref));
}

#[test]
fn failed_read_is_repeated() {
    let mut watch = watching();
    for n in [0, -1] {
        let event = WatchEvent::Received { n, buf: vec![0; 512] };
        assert_eq!(watch.watch_pref_loop(event), read_more());
    }
}

#[test]
fn refused_answer_closes_and_stops() {
    let mut watch = watching();
    assert_eq!(receive(&mut watch, &pref_notice()), go(WatchNext::CheckPref));
    assert_eq!(
        watch.watch_pref_loop(WatchEvent::Answered { keep: false }),
        WatchAction { close: true, next: WatchNext::Stop }
    );
}

#[test]
fn watch_falls_back_to_polling() {
    let mut bad_name = PrefWatch::new(ByteOrder::Little);
    assert_eq!(
        bad_name.watch_pref_loop(WatchEvent::Started { ok: false }),
        go(WatchNext::CheckPref)
    );
    let mut no_instance = PrefWatch::new(ByteOrder::Little);
    no_instance.watch_pref_loop(WatchEvent::Started { ok: true });
    assert_eq!(
        no_instance.watch_pref_loop(WatchEvent::Opened { fd: -1 }),
        go(WatchNext::CheckPref)
    );
    let mut no_watch = PrefWatch::new(ByteOrder::Little);
    no_watch.watch_pref_loop(WatchEvent::Started { ok: true });
    no_watch.watch_pref_loop(WatchEvent::Opened { fd: 0 });
    assert_eq!(
        no_watch.watch_pref_loop(WatchEvent::Watched { wd: -1 }),
        WatchAction { close: true, next: WatchNext::CheckPref }
    );
    for watch in [&mut bad_name, &mut no_instance, &mut no_watch] {
        for _ in 0..3 {
            assert_eq!(
                watch.watch_pref_loop(WatchEvent::Answered { keep: true }),
                go(WatchNext::Rest { secs: 5 })
            );
            assert_eq!(watch.watch_pref_loop(WatchEvent::Rested), go(WatchNext::CheckPref));
        }
        assert_eq!(
            watch.watch_pref_loop(WatchEvent::Answered { keep: false }),
            go(WatchNext::Stop)
        );
    }
}

#[test]
fn poll_turns_on_answers_and_rests() {
    assert_eq!(
        poll_pref_loop(&WatchEvent::Answered { keep: true }),
        WatchNext::Rest { secs: 5 }
    );
    assert_eq!(poll_pref_loop(&WatchEvent::Answered { keep: false }), WatchNext::Stop);
    assert_eq!(poll_pref_loop(&WatchEvent::Rested), WatchNext::CheckPref);
}

#[test]
fn find_change_gives_the_place_after_the_notice() {
    let mut data = notice(b"other", 16);
    data.extend(pref_notice());
    data.extend(notice(b"x", 16));
    assert_eq!(find_change(ByteOrder::Little, &data, 0), Some(32 + 48));
    assert_eq!(find_change(ByteOrder::Little, &data, 32), Some(80));
    assert_eq!(find_change(ByteOrder::Little, &data, 80), None);
    assert_eq!(find_change(ByteOrder::Little, &data, data.len()), None);
}

fn entry(search: &mut TouchSearch, name: &str) -> TouchAction {
    search.find_fts_touch_node(TouchEvent::Entry { name: Some(name.to_string()) })
}

fn device(search: &mut TouchSearch, contents: Option<&str>) -> TouchAction {
    let contents = contents.map(|c| c.to_string());
    search.find_fts_touch_node(TouchEvent::DeviceName { contents })
}

#[test]
fn touch_search_finds_the_first_panel() {
    let mut search = TouchSearch::new();
    assert!(matches!(
        search.find_fts_touch_node(TouchEvent::Listed { ok: true }),
        TouchAction::NextEntry
    ));
    assert!(matches!(entry(&mut search, "mouse0"), TouchAction::NextEntry));
    match entry(&mut search, "event1") {
        TouchAction::ReadDeviceName { path } => {
            assert_eq!(path, "/sys/class/input/event1/device/name");
            assert_eq!(
                Path::new("/sys/class/input/").join("event1").join("device/name"),
                Path::new(&path)
            );
        }
        other => panic!("{:?}", other),
    }
    assert!(matches!(device(&mut search, Some("gpio-keys\n")), TouchAction::NextEntry));
    assert!(matches!(entry(&mut search, "event2"), TouchAction::ReadDeviceName { .. }));
    assert!(matches!(device(&mut search, None), TouchAction::NextEntry));
    assert!(matches!(entry(&mut search, "event3"), TouchAction::ReadDeviceName { .. }));
    match device(&mut search, Some("FocalTech Fts_ts\n")) {
        TouchAction::Finish { node } => assert_eq!(node.as_deref(), Some("/dev/input/event3")),
        other => panic!("{:?}", other),
    }
}

#[test]
fn touch_search_ignores_letter_case() {
    for (name, found) in [
        ("fts", true),
        ("FTS", true),
        ("xfTsy", true),
        ("ft s", false),
        ("ft", false),
        ("", false),
        ("ﬀts", false),
        ("f\u{17f}ts", false),
        ("gifts", true),
    ] {
        assert_eq!(name.to_ascii_lowercase().contains("fts"), found, "{:?}", name);
        let mut search = TouchSearch::new();
        entry(&mut search, "event9");
        let hit = matches!(device(&mut search, Some(name)), TouchAction::Finish { node: Some(_) });
        assert_eq!(hit, found, "{:?}", name);
    }
}

#[test]
fn touch_search_reads_event_entries_only() {
    let mut search = TouchSearch::new();
    for name in ["even", "", "Event0", "xevent0", "js0"] {
        assert!(matches!(entry(&mut search, name), TouchAction::NextEntry));
    }
    for name in ["event", "event12", "eventful"] {
        assert!(matches!(entry(&mut search, name), TouchAction::ReadDeviceName { .. }));
    }
}

#[test]
fn touch_search_ends_without_a_panel() {
    let mut search = TouchSearch::new();
    for event in [
        TouchEvent::Listed { ok: false },
        TouchEvent::Entry { name: None },
        TouchEvent::End,
    ] {
        assert!(matches!(
            search.find_fts_touch_node(event),
            TouchAction::Finish { node: None }
        ));
    }
    assert!(matches!(device(&mut search, Some("fts")), TouchAction::NextEntry));
}

#[test]
fn start_up_needs_both_nodes() {
    for (backlight, suspend_state) in [(false, false), (true, false), (false, true)] {
        assert!(matches!(
            start_up(StartupEvent::Nodes { backlight, suspend_state }),
            StartupAction::Exit
        ));
    }
    assert!(matches!(
        start_up(StartupEvent::Nodes { backlight: true, suspend_state: true }),
        StartupAction::ReadPreference
    ));
}

#[test]
fn start_up_waits_for_the_preference() {
    assert!(matches!(
        start_up(StartupEvent::Preference { enabled: false }),
        StartupAction::WatchPreference
    ));
    assert!(matches!(
        start_up(StartupEvent::Preference { enabled: true }),
        StartupAction::FindTouchNode
    ));
    assert!(matches!(start_up(StartupEvent::WatchEnded), StartupAction::FindTouchNode));
    assert!(keep_waiting(false));
    assert!(!keep_waiting(true));
}

#[test]
fn start_up_serves_the_panel_that_was_found() {
    assert!(matches!(
        start_up(StartupEvent::TouchNode { node: None }),
        StartupAction::Exit
    ));
    match start_up(StartupEvent::TouchNode { node: Some("/dev/input/event3".to_string()) }) {
        StartupAction::Serve { node } => assert_eq!(node, "/dev/input/event3"),
        other => panic!("{:?}", other),
    }
}
