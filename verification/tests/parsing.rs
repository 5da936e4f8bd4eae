use boot_dash::systemd::{
    boot_time_from_output, critical_chain_from_output, duration_parts_of, extract_after_equals,
    extract_parenthesized, guess_priority, journal_args, parse_blame, parse_journal,
    parse_journal_line, parse_services, priority_of_lowercase, service_action_outcome,
    system_info_from_outputs, unit_journal_args, unit_journal_from_output, ServiceInfo,
};

fn service(active: &str, sub: &str) -> ServiceInfo {
    ServiceInfo {
        name: "x.service".to_string(),
        load_state: "loaded".to_string(),
        active_state: active.to_string(),
        sub_state: sub.to_string(),
        description: String::new(),
    }
}

/// Milliseconds of a duration, read the way the dashboard reads them.
fn time_ms(t: &String) -> u64 {
    let mut total: u64 = 0;
    for part in duration_parts_of(t) {
        if let Ok(x) = part.number.parse::<f64>() {
            total += (x * part.ms_per_unit as f64) as u64;
        }
    }
    total
}

#[test]
fn status_display_prefers_known_sub_states() {
    assert_eq!(service("active", "running").status_display(), "running");
    assert_eq!(service("active", "exited").status_display(), "exited");
    assert_eq!(service("active", "waiting").status_display(), "waiting");
    assert_eq!(service("active", "mounted").status_display(), "mounted");
    assert_eq!(service("active", "listening").status_display(), "listening");
    assert_eq!(service("active", "plugged").status_display(), "active");
}

#[test]
fn status_display_of_other_states() {
    assert_eq!(service("inactive", "dead").status_display(), "inactive");
    assert_eq!(service("failed", "failed").status_display(), "failed");
    assert_eq!(service("activating", "start").status_display(), "activating");
    assert_eq!(service("deactivating", "stop").status_display(), "deactivating");
    assert_eq!(service("reloading", "running").status_display(), "unknown");
    assert_eq!(service("Active", "running").status_display(), "unknown");
}

#[test]
fn services_parse_single_spaced_lines() {
    let out = "ssh.service loaded active running OpenBSD Secure Shell server\n\
               ●foo.service loaded failed failed Foo\tdaemon\n\
               bad line\n\
               \n\
               x.service loaded active exited\n";
    let s = parse_services(out);
    assert_eq!(s.len(), 3);
    assert_eq!(s[0].name, "ssh.service");
    assert_eq!(s[0].load_state, "loaded");
    assert_eq!(s[0].active_state, "active");
    assert_eq!(s[0].sub_state, "running");
    assert_eq!(s[0].description, "OpenBSD Secure Shell server");
    assert_eq!(s[1].name, "foo.service");
    assert_eq!(s[1].active_state, "failed");
    assert_eq!(s[1].description, "Foo daemon");
    assert_eq!(s[2].name, "x.service");
    assert_eq!(s[2].sub_state, "exited");
    assert_eq!(s[2].description, "");
}

#[test]
fn services_read_padded_columns() {
    let s = parse_services("ssh.service          loaded active running Secure   Shell\n");
    assert_eq!(s.len(), 1);
    assert_eq!(s[0].name, "ssh.service");
    assert_eq!(s[0].load_state, "loaded");
    assert_eq!(s[0].description, "Secure Shell");
    let s = parse_services("a.service   loaded\tactive    running\n");
    assert_eq!(s.len(), 1);
    assert_eq!(s[0].active_state, "active");
    assert_eq!(s[0].sub_state, "running");
    assert_eq!(s[0].description, "");
    assert_eq!(parse_services("a   b c\n").len(), 0);
}

#[test]
fn services_bullet_alone_leaves_empty_name() {
    let s = parse_services("● foo.service loaded failed failed Foo\n");
    assert_eq!(s.len(), 1);
    assert_eq!(s[0].name, "");
    assert_eq!(s[0].load_state, "foo.service");
    assert_eq!(s[0].active_state, "loaded");
    assert_eq!(s[0].description, "failed Foo");
}

#[test]
fn service_states_are_single_words_example() {
    let s = parse_services(" a.service loaded active running  two   words \r\n");
    assert_eq!(s.len(), 1);
    for f in [&s[0].load_state, &s[0].active_state, &s[0].sub_state] {
        assert!(!f.is_empty());
        assert!(!f.chars().any(char::is_whitespace));
    }
    assert_eq!(s[0].description, "two words");
}

#[test]
fn after_equals_is_trimmed() {
    assert_eq!(extract_after_equals("a = b c "), Some("b c".to_string()));
    assert_eq!(extract_after_equals("x=1=2"), Some("1=2".to_string()));
    assert_eq!(extract_after_equals("no equals"), None);
}

#[test]
fn parenthesized_takes_the_word_before_the_label() {
    let line = "Startup finished in 3.456s (kernel) + 12.345s (userspace) = 15.801s";
    assert_eq!(extract_parenthesized(line, "kernel"), Some("3.456s".to_string()));
    assert_eq!(extract_parenthesized(line, "userspace"), Some("12.345s".to_string()));
    assert_eq!(extract_parenthesized(line, "firmware"), None);
    assert_eq!(extract_parenthesized("1min 2s (kernel)", "kernel"), Some("1min 2s".to_string()));
    assert_eq!(extract_parenthesized("in foo bar (kernel)", "kernel"), Some("bar".to_string()));
    assert_eq!(extract_parenthesized("in 3d 1h  (kernel)", "kernel"), Some("3d 1h".to_string()));
    assert_eq!(extract_parenthesized("x+4s(kernel)", "kernel"), Some("4s".to_string()));
    assert_eq!(extract_parenthesized("(kernel)", "kernel"), Some(String::new()));
}

#[test]
fn boot_time_from_summary() {
    let out = "Startup finished in 3.456s (kernel) + 12.345s (userspace) = 15.801s\n\
               graphical.target reached after 12.3s in userspace.\n";
    let b = boot_time_from_output(out, true).unwrap();
    assert_eq!(b.kernel, "3.456s");
    assert_eq!(b.userspace, "12.345s");
    assert_eq!(b.total, "15.801s");
    assert_eq!(b.firmware, None);
    assert_eq!(b.loader, None);
    assert_eq!(b.raw_output, out);
}

#[test]
fn boot_time_with_firmware_and_loader() {
    let out = "Startup finished in 5.1s (firmware) + 2.2s (loader) + 1.5s (kernel) + 10s (userspace) = 18.8s\n";
    let b = boot_time_from_output(out, true).unwrap();
    assert_eq!(b.firmware, Some("5.1s".to_string()));
    assert_eq!(b.loader, Some("2.2s".to_string()));
    assert_eq!(b.kernel, "1.5s");
    assert_eq!(b.userspace, "10s");
    assert_eq!(b.total, "18.8s");
}

#[test]
fn boot_time_with_minutes() {
    let line = "Startup finished in 2.1s (kernel) + 1min 2.345s (userspace) = 1min 4.445s";
    assert_eq!(extract_parenthesized(line, "userspace"), Some("1min 2.345s".to_string()));
    assert_eq!(extract_parenthesized(line, "kernel"), Some("2.1s".to_string()));
    let b = boot_time_from_output(line, true).unwrap();
    assert_eq!(b.kernel, "2.1s");
    assert_eq!(b.userspace, "1min 2.345s");
    assert_eq!(b.total, "1min 4.445s");
    let out = "Startup finished in 5.1s (firmware) + 2.2s (loader) + 2.5s (kernel) + 1min 500ms (userspace) = 1min 10.3s\n";
    let b = boot_time_from_output(out, true).unwrap();
    assert_eq!(b.loader, Some("2.2s".to_string()));
    assert_eq!(b.userspace, "1min 500ms");
}

#[test]
fn boot_time_last_summary_line_sets_total() {
    let out = "Startup finished in 1s (kernel) = 9s\nStartup finished later\n";
    let b = boot_time_from_output(out, true).unwrap();
    assert_eq!(b.kernel, "1s");
    assert_eq!(b.total, "");
}

#[test]
fn boot_time_failed_run_gives_none() {
    assert!(boot_time_from_output("Startup finished in 1s (kernel) = 1s\n", false).is_none());
}

#[test]
fn boot_time_without_summary_keeps_output() {
    let b = boot_time_from_output("nothing here\n", true).unwrap();
    assert_eq!(b.kernel, "");
    assert_eq!(b.total, "");
    assert_eq!(b.raw_output, "nothing here\n");
}

#[test]
fn duration_parts_of_each_form() {
    let p = duration_parts_of(" 1min 2.5s ");
    assert_eq!(p.len(), 2);
    assert_eq!((p[0].number.as_str(), p[0].ms_per_unit), ("1", 60000));
    assert_eq!((p[1].number.as_str(), p[1].ms_per_unit), ("2.5", 1000));
    let p = duration_parts_of("5min");
    assert_eq!(p.len(), 1);
    assert_eq!((p[0].number.as_str(), p[0].ms_per_unit), ("5", 60000));
    let p = duration_parts_of("123ms");
    assert_eq!((p[0].number.as_str(), p[0].ms_per_unit), ("123", 1));
    let p = duration_parts_of("5.5s");
    assert_eq!((p[0].number.as_str(), p[0].ms_per_unit), ("5.5", 1000));
    assert!(duration_parts_of("abc").is_empty());
    assert!(duration_parts_of("").is_empty());
}

#[test]
fn blame_reads_time_and_unit() {
    let out = "  5.5s foo.service\n  123ms bar.service\n\n1min 2.5s slow.service\nx\n";
    let b = parse_blame(out, 30, time_ms);
    assert_eq!(b.len(), 3);
    assert_eq!((b[0].time_str.as_str(), b[0].time_ms, b[0].unit.as_str()), ("5.5s", 5500, "foo.service"));
    assert_eq!((b[1].time_str.as_str(), b[1].time_ms, b[1].unit.as_str()), ("123ms", 123, "bar.service"));
    assert_eq!(
        (b[2].time_str.as_str(), b[2].time_ms, b[2].unit.as_str()),
        ("1min 2.5s", 62500, "slow.service")
    );
    let b = parse_blame("1min 2s x\n", 1, time_ms);
    assert_eq!((b[0].time_str.as_str(), b[0].time_ms, b[0].unit.as_str()), ("1min 2s", 62000, "x"));
}

#[test]
fn blame_stays_within_limit_example() {
    let out = "1s a.service\n2s b.service\n\n3s c.service\n";
    assert_eq!(parse_blame(out, 2, time_ms).len(), 2);
    assert_eq!(parse_blame(out, 3, time_ms).len(), 2);
    assert_eq!(parse_blame(out, 4, time_ms).len(), 3);
    assert_eq!(parse_blame(out, 0, time_ms).len(), 0);
}

#[test]
fn journal_line_with_pid() {
    let e = parse_journal_line("May 07 12:34:56 myhost sshd[123]: Accepted publickey for user");
    assert_eq!(e.timestamp, "May 07 12:34:56");
    assert_eq!(e.hostname, "myhost");
    assert_eq!(e.unit, "sshd");
    assert_eq!(e.message, "Accepted publickey for user");
    assert_eq!(e.priority, 6);
}

#[test]
fn journal_line_splits_at_first_colon() {
    let e = parse_journal_line("May 07 12:34:56 host kernel: Out of memory: Killed process");
    assert_eq!(e.unit, "kernel");
    assert_eq!(e.message, "Out of memory: Killed process");
    let e = parse_journal_line("May 07 12:34:56 host systemd[1]: Failed to start foo.");
    assert_eq!(e.unit, "systemd");
    assert_eq!(e.priority, 3);
}

#[test]
fn journal_line_without_colon_or_fields() {
    let e = parse_journal_line("May 07 12:34:56 host nocolon here");
    assert_eq!(e.unit, "");
    assert_eq!(e.message, "nocolon here");
    let e = parse_journal_line("short line");
    assert_eq!(e.timestamp, "");
    assert_eq!(e.hostname, "");
    assert_eq!(e.unit, "");
    assert_eq!(e.message, "short line");
    assert_eq!(e.priority, 6);
}

#[test]
fn journal_line_double_space_shifts_fields() {
    let e = parse_journal_line("May  7 12:34:56 host x: y");
    assert_eq!(e.timestamp, "May  7");
    assert_eq!(e.hostname, "12:34:56");
    assert_eq!(e.unit, "host x");
    assert_eq!(e.message, "y");
}

#[test]
fn journal_skips_notices_and_blank_lines() {
    let out = "-- Boot 1234 --\n\nMay 07 12:34:56 h a: warning: disk\n  May 07 12:34:57 h b: ok\n";
    let j = parse_journal(out);
    assert_eq!(j.len(), 2);
    assert_eq!(j[0].unit, "a");
    assert_eq!(j[0].priority, 4);
    assert_eq!(j[1].unit, "b");
    assert_eq!(j[1].priority, 6);
}

#[test]
fn journal_priorities_are_syslog_levels_example() {
    let out = "a b c d e: kernel panic\nf g h i j: debug\nx\n";
    for e in parse_journal(out) {
        assert!(e.priority <= 7);
    }
}

#[test]
fn guess_priority_ignores_case() {
    assert_eq!(guess_priority("KERNEL PANIC"), 0);
    assert_eq!(guess_priority("Emergency"), 0);
    assert_eq!(guess_priority("ALERT raised"), 1);
    assert_eq!(guess_priority("Critical temperature"), 2);
    assert_eq!(guess_priority("ERROR and warn"), 3);
    assert_eq!(guess_priority("Unit Failed"), 3);
    assert_eq!(guess_priority("WARNING: low"), 4);
    assert_eq!(guess_priority("Notice me"), 5);
    assert_eq!(guess_priority("debug info"), 7);
    assert_eq!(guess_priority("all good"), 6);
    assert_eq!(guess_priority(""), 6);
}

#[test]
fn appending_keeps_severity_example() {
    assert_eq!(guess_priority("disk Error"), 3);
    assert_eq!(guess_priority("disk Error, now a warning"), 3);
    assert_eq!(guess_priority("disk Error then PANIC"), 0);
    assert_eq!(guess_priority("Notice"), 5);
    assert_eq!(guess_priority("Notice: debug"), 5);
    // Information (6) is no severity found: appending "debug" gives 7.
    assert_eq!(guess_priority("hello debug"), 7);
}

#[test]
fn priority_of_lowercase_is_case_exact() {
    assert_eq!(priority_of_lowercase("error"), 3);
    assert_eq!(priority_of_lowercase("ERROR"), 6);
    assert_eq!(priority_of_lowercase("panic then warn"), 0);
}

#[test]
fn journal_args_default_and_filtered() {
    assert_eq!(journal_args(200, None, None), vec!["--no-pager", "-o", "short", "--lines", "200"]);
    assert_eq!(
        journal_args(0, Some(3), Some("ssh.service")),
        vec!["--no-pager", "-o", "short", "--lines", "0", "-p", "3", "-u", "ssh.service"]
    );
    assert_eq!(
        journal_args(1234567, Some(10), None),
        vec!["--no-pager", "-o", "short", "--lines", "1234567", "-p", "10"]
    );
}

#[test]
fn unit_journal_args_example() {
    assert_eq!(unit_journal_args("ssh.service", 50), vec!["-u", "ssh.service", "--no-pager", "-n", "50"]);
}

#[test]
fn unit_journal_output_or_failure() {
    assert_eq!(unit_journal_from_output(None), vec!["Failed to read journal"]);
    assert_eq!(unit_journal_from_output(Some("a\nb\r\n")), vec!["a", "b"]);
    assert!(unit_journal_from_output(Some("")).is_empty());
}

#[test]
fn critical_chain_lines() {
    assert_eq!(critical_chain_from_output("x\n\ny"), vec!["x", "", "y"]);
    assert_eq!(critical_chain_from_output("a\r\nb\r"), vec!["a", "b\r"]);
}

#[test]
fn system_info_from_command_outputs() {
    let i = system_info_from_outputs(
        Some("host\n"),
        Some(" 6.1.0 \n"),
        None,
        Some("systemd 252 (252.22)\n+PAM +AUDIT\n"),
    );
    assert_eq!(i.hostname, "host");
    assert_eq!(i.kernel, "6.1.0");
    assert_eq!(i.uptime, "unknown");
    assert_eq!(i.systemd_version, "systemd 252 (252.22)");
    let i = system_info_from_outputs(None, None, Some("up 2 hours\n"), Some(""));
    assert_eq!(i.hostname, "unknown");
    assert_eq!(i.uptime, "up 2 hours");
    assert_eq!(i.systemd_version, "unknown");
    assert_eq!(system_info_from_outputs(None, None, None, None).systemd_version, "unknown");
}

#[test]
fn service_action_success_and_failure() {
    assert_eq!(
        service_action_outcome("ssh.service", "restart", true, "ignored"),
        Ok("Successfully restarted ssh.service".to_string())
    );
    assert_eq!(
        service_action_outcome("ssh.service", "stop", false, " Access denied \n"),
        Err("Failed to stop ssh.service: Access denied".to_string())
    );
}
