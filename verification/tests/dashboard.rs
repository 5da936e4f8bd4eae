use std::cell::Cell;

use boot_dash::dashboard::{
    blame_color, blame_title, boot_summary, footer, header_title, tab_strip, journal_title, priority_color, refresh_due,
    services_title, status_color, visible_window, Action, App, Key, KeyCode, Shade, Tab,
};
use boot_dash::systemd::{BlameEntry, BootTime, JournalEntry, ServiceInfo, SystemInfo};

fn unit(name: &str, description: &str) -> ServiceInfo {
    ServiceInfo {
        name: name.to_string(),
        load_state: "loaded".to_string(),
        active_state: "active".to_string(),
        sub_state: "running".to_string(),
        description: description.to_string(),
    }
}

fn blame(n: usize) -> Vec<BlameEntry> {
    (0..n)
        .map(|i| BlameEntry { time_str: format!("{}ms", i), time_ms: i as u64, unit: format!("u{}.service", i) })
        .collect()
}

fn journal(n: usize) -> Vec<JournalEntry> {
    (0..n)
        .map(|i| JournalEntry {
            timestamp: String::new(),
            hostname: String::new(),
            unit: String::new(),
            message: format!("m{}", i),
            priority: 6,
        })
        .collect()
}

fn info() -> SystemInfo {
    SystemInfo {
        hostname: "host".to_string(),
        kernel: "6.1".to_string(),
        uptime: "up 2 hours".to_string(),
        systemd_version: "systemd 252".to_string(),
    }
}

fn app() -> App {
    App::new(
        vec![
            unit("ssh.service", "OpenBSD Secure Shell server"),
            unit("cron.service", "Regular background program processing daemon"),
            unit("NetworkManager.service", "Network Manager"),
            unit("getty@tty1.service", "Getty on tty1"),
        ],
        None,
        blame(3),
        journal(5),
        info(),
    )
}

fn key(c: char) -> Key {
    Key { code: KeyCode::Char(c), ctrl: false }
}

fn press(code: KeyCode) -> Key {
    Key { code, ctrl: false }
}

#[test]
fn new_app_starts_on_services_at_top() {
    let a = app();
    assert_eq!(a.tab, Tab::Services);
    assert_eq!(a.scroll, 0);
    assert_eq!(a.filter, "");
    assert!(!a.filter_active);
    assert_eq!(a.services.len(), 4);
    assert_eq!(a.blame.len(), 3);
}

#[test]
fn empty_filter_shows_every_service_example() {
    let a = app();
    let shown = a.filtered_services();
    assert_eq!(shown.len(), 4);
    assert_eq!(shown[2].name, "NetworkManager.service");
}

#[test]
fn filter_ignores_case_and_reads_descriptions() {
    let mut a = app();
    a.filter = "SSH".to_string();
    let shown = a.filtered_services();
    assert_eq!(shown.len(), 1);
    assert_eq!(shown[0].name, "ssh.service");
    a.filter = "network".to_string();
    assert_eq!(a.filtered_services().len(), 1);
    a.filter = "daemon".to_string();
    assert_eq!(a.filtered_services()[0].name, "cron.service");
    a.filter = "tty".to_string();
    assert_eq!(a.filtered_services().len(), 1);
    a.filter = "nothing".to_string();
    assert_eq!(a.filtered_services().len(), 0);
}

#[test]
fn shown_services_come_from_the_list_example() {
    let mut a = app();
    a.filter = "e".to_string();
    let shown = a.filtered_services();
    assert!(shown.len() <= a.services.len());
    for s in shown {
        assert!(a.services.iter().any(|t| t.name == s.name));
    }
}

#[test]
fn max_scroll_of_each_tab() {
    let mut a = app();
    assert_eq!(a.max_scroll(), 3);
    a.tab = Tab::Boot;
    assert_eq!(a.max_scroll(), 2);
    a.tab = Tab::Journal;
    assert_eq!(a.max_scroll(), 4);
    a.journal.clear();
    assert_eq!(a.max_scroll(), 0);
    a.tab = Tab::Services;
    a.filter = "ssh".to_string();
    assert_eq!(a.max_scroll(), 0);
}

#[test]
fn quit_keys() {
    let mut a = app();
    assert_eq!(a.handle_key(key('q')), Action::Quit);
    assert_eq!(a.handle_key(Key { code: KeyCode::Char('c'), ctrl: true }), Action::Quit);
    assert_eq!(a.handle_key(key('c')), Action::Continue);
    assert_eq!(a.handle_key(Key { code: KeyCode::Char('q'), ctrl: true }), Action::Quit);
}

#[test]
fn number_keys_switch_tab_and_reset_scroll() {
    let mut a = app();
    a.scroll = 2;
    assert_eq!(a.handle_key(key('2')), Action::Continue);
    assert_eq!((a.tab, a.scroll), (Tab::Boot, 0));
    a.scroll = 1;
    a.handle_key(key('3'));
    assert_eq!((a.tab, a.scroll), (Tab::Journal, 0));
    a.handle_key(key('1'));
    assert_eq!(a.tab, Tab::Services);
}

#[test]
fn tab_cycle_returns_example() {
    let mut a = app();
    a.handle_key(press(KeyCode::Tab));
    assert_eq!(a.tab, Tab::Boot);
    a.handle_key(press(KeyCode::Tab));
    assert_eq!(a.tab, Tab::Journal);
    a.handle_key(press(KeyCode::Tab));
    assert_eq!(a.tab, Tab::Services);
    assert_eq!(a.scroll, 0);
}

#[test]
fn scrolling_stays_within_the_list() {
    let mut a = app();
    a.handle_key(press(KeyCode::Up));
    assert_eq!(a.scroll, 0);
    for _ in 0..10 {
        a.handle_key(key('j'));
    }
    assert_eq!(a.scroll, 3);
    a.handle_key(press(KeyCode::Down));
    assert_eq!(a.scroll, 3);
    a.handle_key(key('k'));
    assert_eq!(a.scroll, 2);
    a.handle_key(key('g'));
    assert_eq!(a.scroll, 0);
    a.handle_key(key('G'));
    assert_eq!(a.scroll, 3);
    a.handle_key(key('/'));
    assert!(a.scroll <= a.max_scroll());
}

#[test]
fn refresh_key_asks_for_reload() {
    let mut a = app();
    assert_eq!(a.handle_key(key('r')), Action::Refresh);
    assert_eq!(a.handle_key(key('x')), Action::Continue);
    assert_eq!(a.handle_key(press(KeyCode::Other)), Action::Continue);
}

#[test]
fn filter_prompt_edits_the_filter() {
    let mut a = app();
    a.filter = "old".to_string();
    a.handle_key(key('/'));
    assert!(a.filter_active);
    assert_eq!(a.filter, "");
    assert_eq!(a.handle_key(key('q')), Action::Continue);
    assert_eq!(a.handle_key(key('r')), Action::Continue);
    a.handle_key(press(KeyCode::Backspace));
    a.handle_key(key('s'));
    a.handle_key(key('x'));
    assert_eq!(a.filter, "qsx");
    a.handle_key(press(KeyCode::Backspace));
    assert_eq!(a.filter, "qs");
    a.handle_key(press(KeyCode::Tab));
    assert_eq!(a.tab, Tab::Services);
    a.handle_key(press(KeyCode::Enter));
    assert!(!a.filter_active);
    assert_eq!(a.filter, "qs");
}

#[test]
fn backspace_on_empty_filter() {
    let mut a = app();
    a.handle_key(key('/'));
    a.handle_key(press(KeyCode::Backspace));
    assert_eq!(a.filter, "");
    assert!(a.filter_active);
}

#[test]
fn escape_drops_the_filter_example() {
    let mut a = app();
    a.handle_key(key('/'));
    for c in "ssh".chars() {
        a.handle_key(key(c));
    }
    assert_eq!(a.filtered_services().len(), 1);
    assert_eq!(a.handle_key(press(KeyCode::Esc)), Action::Continue);
    assert!(!a.filter_active);
    assert_eq!(a.filtered_services().len(), 4);
}

#[test]
fn filter_ignores_case_example() {
    let mut a = app();
    a.filter = "NetWork".to_string();
    let upper: Vec<String> = a.filtered_services().iter().map(|s| s.name.clone()).collect();
    a.filter = "network".to_string();
    let lower: Vec<String> = a.filtered_services().iter().map(|s| s.name.clone()).collect();
    assert_eq!(upper, lower);
    assert_eq!(lower, vec!["NetworkManager.service"]);
}

#[test]
fn narrower_filter_only_hides_example() {
    let mut a = app();
    a.filter = "s".to_string();
    let wide: Vec<String> = a.filtered_services().iter().map(|s| s.name.clone()).collect();
    a.filter = "Se".to_string();
    let narrow: Vec<String> = a.filtered_services().iter().map(|s| s.name.clone()).collect();
    assert_eq!(wide.len(), 4);
    assert_eq!(narrow, vec!["ssh.service", "cron.service", "NetworkManager.service", "getty@tty1.service"]);
    a.filter = "ser".to_string();
    let narrower: Vec<String> = a.filtered_services().iter().map(|s| s.name.clone()).collect();
    assert!(narrower.len() <= narrow.len());
    assert!(narrower.iter().all(|n| narrow.contains(n)));
}

#[test]
fn refresh_keeps_scroll_within_a_shorter_list() {
    let mut a = app();
    a.tab = Tab::Boot;
    a.scroll = 1;
    a.refresh(Vec::new, || None, Vec::new, Vec::new);
    assert_eq!(a.blame.len(), 0);
    assert_eq!(a.scroll, 0);
    assert!(a.scroll <= a.max_scroll());
    a.tab = Tab::Journal;
    a.scroll = 4;
    a.refresh(Vec::new, || None, Vec::new, || journal(3));
    assert_eq!(a.scroll, 2);
    a.scroll = 1;
    a.refresh(Vec::new, || None, Vec::new, || journal(9));
    assert_eq!(a.scroll, 1);
}

#[test]
fn typing_a_filter_keeps_scroll_within_the_list() {
    let mut a = app();
    a.handle_key(key('G'));
    assert_eq!(a.scroll, 3);
    a.handle_key(key('/'));
    assert_eq!(a.scroll, 3);
    for c in "ssh".chars() {
        a.handle_key(key(c));
        assert!(a.scroll <= a.max_scroll());
    }
    assert_eq!(a.scroll, 0);
    a.handle_key(press(KeyCode::Esc));
    assert_eq!(a.scroll, 0);
    assert_eq!(a.max_scroll(), 3);
}

#[test]
fn refresh_timer() {
    assert!(!refresh_due(0));
    assert!(!refresh_due(4999));
    assert!(refresh_due(5000));
    assert!(refresh_due(123456));
}

#[test]
fn refresh_loads_only_the_current_tab() {
    let calls = Cell::new(0u32);
    let mut a = app();
    a.tab = Tab::Boot;
    a.refresh(
        || {
            calls.set(calls.get() + 1);
            Vec::new()
        },
        || None,
        || blame(7),
        || {
            calls.set(calls.get() + 10);
            Vec::new()
        },
    );
    assert_eq!(calls.get(), 0);
    assert_eq!(a.blame.len(), 7);
    assert_eq!(a.services.len(), 4);
    a.tab = Tab::Services;
    a.refresh(|| vec![unit("a.service", "")], || None, || blame(1), || journal(1));
    assert_eq!(a.services.len(), 1);
    assert_eq!(a.blame.len(), 7);
    assert_eq!(a.journal.len(), 5);
    a.tab = Tab::Journal;
    a.refresh(Vec::new, || None, Vec::new, || journal(2));
    assert_eq!(a.journal.len(), 2);
    assert_eq!(a.services.len(), 1);
}

#[test]
fn status_colors() {
    assert_eq!(status_color("running"), Shade::Green);
    assert_eq!(status_color("listening"), Shade::Green);
    assert_eq!(status_color("mounted"), Shade::Green);
    assert_eq!(status_color("exited"), Shade::DimGreen);
    assert_eq!(status_color("inactive"), Shade::DimGreen);
    assert_eq!(status_color("failed"), Shade::Red);
    assert_eq!(status_color("activating"), Shade::Yellow);
    assert_eq!(status_color("deactivating"), Shade::Yellow);
    assert_eq!(status_color("active"), Shade::DimGreen);
}

#[test]
fn blame_colors_by_threshold() {
    assert_eq!(blame_color(5001), Shade::Red);
    assert_eq!(blame_color(5000), Shade::Yellow);
    assert_eq!(blame_color(1001), Shade::Yellow);
    assert_eq!(blame_color(1000), Shade::Green);
    assert_eq!(blame_color(0), Shade::Green);
}

#[test]
fn priority_colors() {
    assert_eq!(priority_color(0), Shade::Red);
    assert_eq!(priority_color(3), Shade::Red);
    assert_eq!(priority_color(4), Shade::Yellow);
    assert_eq!(priority_color(5), Shade::Green);
    assert_eq!(priority_color(6), Shade::Green);
    assert_eq!(priority_color(7), Shade::DimGreen);
    assert_eq!(priority_color(200), Shade::DimGreen);
}

#[test]
fn visible_window_examples() {
    assert_eq!(visible_window(2, 10, 5), (2, 5));
    assert_eq!(visible_window(0, 2, 5), (0, 0));
    assert_eq!(visible_window(0, 13, 100), (0, 10));
    assert_eq!(visible_window(7, 13, 3), (7, 3));
}

#[test]
fn titles() {
    assert_eq!(header_title(&info()), " host │ kernel 6.1 │ up 2 hours │ systemd 252 ");
    assert_eq!(services_title(3, 10), "Services (3/10)");
    assert_eq!(blame_title(30), "Blame (top 30)");
    assert_eq!(journal_title(0), "Journal (0 entries)");
    assert_eq!(journal_title(18446744073709551615), "Journal (18446744073709551615 entries)");
}

fn texts(line: &[boot_dash::dashboard::Piece]) -> Vec<(String, Shade, bool)> {
    line.iter().map(|p| (p.text.clone(), p.shade, p.bold)).collect()
}

#[test]
fn tab_strip_marks_current_tab() {
    assert_eq!(tab_strip(Tab::Boot), [(" 1:Services ", false), (" 2:Boot ", true), (" 3:Journal ", false)]);
    assert_eq!(tab_strip(Tab::Services)[0], (" 1:Services ", true));
    assert_eq!(tab_strip(Tab::Journal)[2], (" 3:Journal ", true));
}

#[test]
fn boot_summary_lines() {
    let none = boot_summary(&None);
    assert_eq!(none.len(), 1);
    assert_eq!(texts(&none[0]), vec![("  (no boot data)".to_string(), Shade::Red, false)]);
    let mut bt = BootTime {
        kernel: "2.1s".to_string(),
        userspace: "1min 2s".to_string(),
        total: "1min 4s".to_string(),
        firmware: None,
        loader: None,
        raw_output: String::new(),
    };
    let lines = boot_summary(&Some(bt.clone()));
    assert_eq!(lines.len(), 2);
    assert_eq!(
        texts(&lines[0]),
        vec![("  Total: ".to_string(), Shade::DimGreen, false), ("1min 4s".to_string(), Shade::Green, true)]
    );
    assert_eq!(texts(&lines[1])[1], ("2.1s".to_string(), Shade::Green, false));
    assert_eq!(texts(&lines[1])[3], ("1min 2s".to_string(), Shade::Green, false));
    bt.firmware = Some("5s".to_string());
    let lines = boot_summary(&Some(bt));
    assert_eq!(lines.len(), 3);
    assert_eq!(
        texts(&lines[2]),
        vec![("  Firmware: ".to_string(), Shade::DimGreen, false), ("5s".to_string(), Shade::Green, false)]
    );
}

#[test]
fn footer_shows_prompt_or_keys() {
    let mut a = app();
    let keys = footer(&a);
    assert_eq!(keys.len(), 10);
    assert_eq!((keys[0].text.as_str(), keys[0].bold), (" q", true));
    assert_eq!((keys[9].text.as_str(), keys[9].shade), (" filter", Shade::DimGreen));
    a.handle_key(key('/'));
    a.handle_key(key('x'));
    let prompt = footer(&a);
    assert_eq!(
        texts(&prompt),
        vec![
            (" /".to_string(), Shade::Green, true),
            ("x".to_string(), Shade::Green, false),
            ("█".to_string(), Shade::Green, false)
        ]
    );
}
