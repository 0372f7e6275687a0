use proc_daemon::resources::BoundedHistory;

#[test]
fn history_drops_the_oldest_sample() {
    let mut history = BoundedHistory::new(3);
    for sample in 1..=5 {
        history.push(sample);
    }
    assert_eq!(history.as_slice(), &[3, 4, 5]);
    assert_eq!(history.len(), 3);
    assert_eq!(history.max_len(), 3);
}

#[test]
fn history_with_no_room_keeps_nothing() {
    let mut history = BoundedHistory::new(0);
    history.push("a");
    assert_eq!(history.len(), 0);
}

#[test]
fn lowering_the_limit_drops_the_oldest_samples() {
    let mut history = BoundedHistory::new(4);
    for sample in 0..4 {
        history.push(sample);
    }
    history.set_max_entries(2);
    assert_eq!(history.as_slice(), &[2, 3]);
    history.push(9);
    assert_eq!(history.as_slice(), &[3, 9]);
    assert_eq!(history.max_len(), 2);
}

use proc_daemon::resources::{rss_bytes_in_status_line, status_line_unreadable, thread_count_from_stat};

#[test]
fn rss_is_read_from_the_vmrss_line() {
    assert_eq!(rss_bytes_in_status_line("VmRSS:\t    2048 kB"), Some(2048 * 1024));
    assert_eq!(rss_bytes_in_status_line("VmRSS: +12 kB"), Some(12 * 1024));
    assert_eq!(rss_bytes_in_status_line("VmHWM:\t    4096 kB"), None);
    assert_eq!(rss_bytes_in_status_line("VmRSS: lots kB"), None);
    assert_eq!(rss_bytes_in_status_line("VmRSS: -1 kB"), None);
    assert_eq!(rss_bytes_in_status_line("VmRSS: 18446744073709551616 kB"), None);
    assert_eq!(rss_bytes_in_status_line(" VmRSS: 1 kB"), None);
    assert_eq!(rss_bytes_in_status_line("VmRSS:7"), None);
}

#[test]
fn unreadable_rss_lines_are_recognised() {
    assert!(status_line_unreadable("VmRSS:"));
    assert!(status_line_unreadable("VmRSS:   "));
    assert!(status_line_unreadable("VmRSS: 18446744073709551615 kB"));
    assert!(!status_line_unreadable("VmRSS: 18014398509481983 kB"));
    assert!(!status_line_unreadable("Name: daemon"));
    assert!(!status_line_unreadable("VmRSS: x"));
    assert_eq!(rss_bytes_in_status_line("VmRSS: 18014398509481983 kB"), Some(18014398509481983 * 1024));
}

#[test]
fn thread_count_is_the_twentieth_field() {
    let line = "1234 (daemon) S 1 1234 1234 0 -1 4194560 100 0 0 0 5 3 0 0 20 0 7 0 100 1000 200";
    assert_eq!(thread_count_from_stat(line), 7);
    let short = "1234 (daemon) S 1 1234";
    assert_eq!(thread_count_from_stat(short), 0);
    let bad = "1234 (daemon) S 1 1234 1234 0 -1 4194560 100 0 0 0 5 3 0 0 20 0 x 0 100 1000 200";
    assert_eq!(thread_count_from_stat(bad), 0);
    let spaced = "1234 (my daemon) S 1 1234 1234 0 -1 4194560 100 0 0 0 5 3 0 0 20 0 7 0 100 1000 200";
    assert_eq!(thread_count_from_stat(spaced), 7);
    let paren = "1234 (a) b) S 1 1234 1234 0 -1 4194560 100 0 0 0 5 3 0 0 20 0 9 0 100 1000 200";
    assert_eq!(thread_count_from_stat(paren), 9);
}

use proc_daemon::resources::stat_fields;

#[test]
fn stat_fields_start_after_the_command_name() {
    let line = "42 (my daemon) S 1 2 3";
    let fields = stat_fields(line);
    let words: Vec<String> = fields.iter().map(|f| f.iter().collect()).collect();
    assert_eq!(words, vec!["S", "1", "2", "3"]);
    let no_paren = "42 daemon S 1";
    let words: Vec<String> = stat_fields(no_paren).iter().map(|f| f.iter().collect()).collect();
    assert_eq!(words, vec!["S", "1"]);
    assert!(stat_fields("(x)").is_empty());
}

use proc_daemon::resources::{filetime_to_ns, ps_rss_overflows, rss_bytes_from_ps, thread_count_from_ps};

#[test]
fn ps_output_is_read() {
    assert_eq!(rss_bytes_from_ps("  1234\n"), 1234 * 1024);
    assert_eq!(rss_bytes_from_ps("abc"), 0);
    assert_eq!(rss_bytes_from_ps(""), 0);
    assert_eq!(rss_bytes_from_ps("12 34"), 0);
    assert!(ps_rss_overflows("18446744073709551615"));
    assert!(!ps_rss_overflows("99"));
    assert_eq!(thread_count_from_ps(" 0.5  12\n"), 12);
    assert_eq!(thread_count_from_ps("0.5"), 0);
    assert_eq!(thread_count_from_ps("0.5 x"), 0);
}

#[test]
fn filetime_ticks_are_hundred_nanoseconds() {
    assert_eq!(filetime_to_ns(0, 10), 1000);
    assert_eq!(filetime_to_ns(1, 0), 429_496_729_600);
}
