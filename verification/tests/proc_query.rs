//! What the kernel says about processes.

use phux_server::proc_query::{
    argv0_name, argv_after_path, clock_ticks_per_second, foreground_pgid, parse_btime,
    parse_procargs2, parse_stat_starttime, process_argv, process_start_ms, process_start_time,
    ticks_since_boot_to_unix_ms, usable_rate, BootClock,
};

fn blob(argc: i32, exec_path: &str, pad: usize, argv: &[&str]) -> Vec<u8> {
    let mut out = argc.to_ne_bytes().to_vec();
    out.extend_from_slice(exec_path.as_bytes());
    out.push(0);
    out.extend(vec![0u8; pad]);
    for arg in argv {
        out.extend_from_slice(arg.as_bytes());
        out.push(0);
    }
    out.extend_from_slice(b"PATH=/usr/bin\0");
    out
}

#[test]
fn parses_argv_past_exec_path_and_padding() {
    let raw = blob(2, "/usr/local/bin/node", 6, &["node", "/opt/cli.js"]);
    let argv = parse_procargs2(&raw).expect("parses");
    assert_eq!(argv, vec!["node".to_owned(), "/opt/cli.js".to_owned()]);
}

#[test]
fn parses_with_no_padding() {
    let raw = blob(1, "/bin/codex", 0, &["codex"]);
    assert_eq!(
        parse_procargs2(&raw).expect("parses"),
        vec!["codex".to_owned()]
    );
}

#[test]
fn stops_at_argc_and_does_not_leak_the_environment() {
    let raw = blob(1, "/bin/codex", 2, &["codex"]);
    let argv = parse_procargs2(&raw).expect("parses");
    assert_eq!(argv.len(), 1, "env must not be mistaken for argv");
}

#[test]
fn truncated_and_degenerate_blobs_are_none() {
    assert!(parse_procargs2(&[]).is_none());
    assert!(parse_procargs2(&[1, 2]).is_none());
    assert!(parse_procargs2(&0i32.to_ne_bytes()).is_none(), "argc 0");
    // argc claims 3 args but the blob holds none.
    let mut raw = 3i32.to_ne_bytes().to_vec();
    raw.extend_from_slice(b"/bin/x\0");
    assert!(parse_procargs2(&raw).is_none());
}

#[test]
fn every_argument_ends_with_a_zero() {
    assert_eq!(
        argv_after_path(b"/bin/x\0x\0tail\0", 2),
        Some(vec!["x".to_owned(), "tail".to_owned()])
    );
    assert_eq!(argv_after_path(b"/bin/x\0x\0tail", 2), None, "no zero");
    assert_eq!(argv_after_path(b"/bin/x\0x\0", 2), None, "one is missing");
    assert_eq!(argv_after_path(b"/bin/x", 1), None, "the path has no end");
    assert_eq!(argv_after_path(b"/bin/x\0x\0", -1), None);
    assert_eq!(
        argv_after_path(b"/bin/x\0\xff\0", 1),
        Some(vec!["\u{fffd}".to_owned()]),
        "what is not UTF-8 is replaced"
    );
    let mut raw = 1i32.to_ne_bytes().to_vec();
    raw.extend_from_slice(b"/bin/x\0");
    assert!(parse_procargs2(&raw).is_none(), "nothing follows the path");
}

fn stat_line(comm: &str, starttime: u64) -> String {
    let mut fields = vec!["S".to_owned()];
    for i in 4..=21u64 {
        fields.push(i.to_string());
    }
    fields.push(starttime.to_string());
    fields.push("999999".to_owned());
    format!("1234 ({comm}) {}", fields.join(" "))
}

#[test]
fn reads_field_22_of_proc_stat() {
    assert_eq!(
        parse_stat_starttime(&stat_line("codex", 4_242_424)),
        Some(4_242_424),
    );
}

#[test]
fn a_comm_containing_spaces_and_parens_does_not_shift_the_fields() {
    assert_eq!(
        parse_stat_starttime(&stat_line("sh -c (weird) ((", 77)),
        Some(77),
        "anchoring on the LAST paren is what makes this parse",
    );
}

#[test]
fn a_truncated_or_malformed_stat_line_is_no_answer() {
    assert_eq!(parse_stat_starttime(""), None);
    assert_eq!(
        parse_stat_starttime("1234 (codex) S 1 2 3"),
        None,
        "too few fields to reach starttime",
    );
    assert_eq!(parse_stat_starttime("1234 codex S"), None, "no paren");
    let non_numeric = stat_line("codex", 5).replace(" 5 ", " notanumber ");
    assert_eq!(
        parse_stat_starttime(&non_numeric),
        None,
        "a field that is not a number is no answer, never a guess",
    );
}

#[test]
fn btime_is_read_from_its_own_line() {
    let proc_stat = "cpu  1 2 3\nintr 5\nbtime 1700000000\nprocesses 9\n";
    assert_eq!(parse_btime(proc_stat), Some(1_700_000_000));
    assert_eq!(parse_btime("cpu 1\n"), None, "no btime line");
    assert_eq!(parse_btime("btime soon\n"), None, "non-numeric");
}

#[test]
fn numbers_are_read_as_unsigned_decimals() {
    assert_eq!(parse_btime("btime +17\u{a0}\r\n"), Some(17));
    assert_eq!(parse_btime("btime +\n"), None);
    assert_eq!(parse_btime("btime -1\n"), None);
    assert_eq!(
        parse_btime("btime 18446744073709551615"),
        Some(u64::MAX)
    );
    assert_eq!(parse_btime("btime 18446744073709551616"), None);
    assert_eq!(parse_btime("btime \nbtime 3\n"), None, "the first line decides");
}

#[test]
fn ticks_convert_to_unix_ms_and_refuse_a_zero_rate() {
    // 250 ticks at 100 Hz is 2.5 s after a boot at t = 1000 s.
    assert_eq!(ticks_since_boot_to_unix_ms(250, 1000, 100), Some(1_002_500));
    assert_eq!(ticks_since_boot_to_unix_ms(250, 1000, 0), None);
    assert_eq!(ticks_since_boot_to_unix_ms(u64::MAX, 1, 100), None);
}

#[test]
fn impossible_pids_are_no_answer() {
    for pid in [0, -1, i32::MAX] {
        // No process has the last pid, so there is nothing to read for it.
        let line = stat_line("codex", 5);
        let stat = if pid == i32::MAX {
            None
        } else {
            Some(line.as_str())
        };
        assert_eq!(process_start_time(pid, stat), None);
        assert_eq!(process_start_ms(pid, stat, Some(1), Some(100)), None);
    }
}

#[test]
fn start_times_need_every_input() {
    let line = stat_line("codex", 250);
    let stat = Some(line.as_str());
    assert_eq!(process_start_time(7, stat), Some(250));
    assert_eq!(
        process_start_ms(7, stat, Some(1000), Some(100)),
        Some(1_002_500)
    );
    assert_eq!(process_start_ms(7, stat, None, Some(100)), None);
    assert_eq!(process_start_ms(7, stat, Some(1000), None), None);
}

#[test]
fn the_first_boot_reading_stands() {
    let mut clock = BootClock::new();
    assert_eq!(clock.boot_secs(None), None);
    assert_eq!(clock.boot_secs(Some("cpu 1\n")), None, "not cached");
    assert_eq!(clock.boot_secs(Some("btime 100\n")), Some(100));
    assert_eq!(clock.boot_secs(Some("btime 200\n")), Some(100));
    assert_eq!(clock.boot_secs(None), Some(100));
}

#[test]
fn the_clock_rate_is_positive() {
    assert!(clock_ticks_per_second().is_some_and(|rate| rate > 0));
    assert_eq!(usable_rate(Some(100)), Some(100));
    assert_eq!(usable_rate(Some(0)), None);
    assert_eq!(usable_rate(Some(-1)), None);
    assert_eq!(usable_rate(None), None);
}

#[test]
fn argv0_name_is_the_basename_without_a_login_dash() {
    let argv = |args: &[&str]| args.iter().map(|a| (*a).to_owned()).collect::<Vec<_>>();
    assert_eq!(
        argv0_name(&argv(&["/bin/sleep", "30"])),
        Some("sleep".to_owned())
    );
    assert_eq!(argv0_name(&argv(&["-zsh"])), Some("zsh".to_owned()));
    assert_eq!(
        argv0_name(&argv(&["vim", "secret.txt"])),
        Some("vim".to_owned())
    );
    assert_eq!(argv0_name(&[]), None);
    assert_eq!(argv0_name(&argv(&["/usr/bin/"])), None);
}

#[test]
fn foreground_pgid_on_a_bogus_fd_is_none() {
    assert_eq!(foreground_pgid(-1, Some(5)), None);
    assert_eq!(foreground_pgid(i32::MAX, None), None);
}

#[test]
fn a_foreground_group_is_positive() {
    assert_eq!(foreground_pgid(3, Some(5)), Some(5));
    assert_eq!(foreground_pgid(3, Some(0)), None);
}

#[test]
fn process_argv_of_impossible_pids_is_none() {
    assert_eq!(process_argv(0, Some(b"init\0")), None);
    assert_eq!(process_argv(-1, Some(b"init\0")), None);
    assert_eq!(process_argv(i32::MAX, None), None);
}

#[test]
fn arguments_are_split_at_zeros() {
    assert_eq!(
        process_argv(1, Some(b"vim\0\0a b\0")),
        Some(vec!["vim".to_owned(), "a b".to_owned()])
    );
    assert_eq!(process_argv(1, Some(b"\0\0")), None, "a kernel thread");
    assert_eq!(process_argv(1, Some(b"")), None);
}

#[test]
fn a_display_name_ends_the_first_argument() {
    for path in ["/usr/bin/vim", "-zsh", "/opt/--tool-x", "plain", "a/-b"] {
        let name = argv0_name(&[path.to_owned()]).expect("a name");
        assert!(path.ends_with(&name));
        assert!(!name.contains('/') && !name.starts_with('-'));
    }
}
