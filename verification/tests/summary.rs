use std::collections::HashMap;

use strace_analyzer::config::Config;
use strace_analyzer::log::{debug, told, verbose};
use strace_analyzer::syscall::Level;
use strace_analyzer::output::Output;
use strace_analyzer::summary::{
    humanize, largest_in, noise, ops_in, same_counts, shorten, show_table, tally, Report, Summary,
    Tally,
};

fn quiet() -> Config {
    Config { debug: false, verbose: false, output: Output::Continuous }
}

fn all() -> Config {
    Config { debug: false, verbose: true, output: Output::Continuous }
}

#[test]
fn new_summary_is_empty() {
    let s = Summary::new("/data/in");
    assert_eq!(s.file, "/data/in");
    assert!(s.read_freq.is_empty());
    assert!(s.write_freq.is_empty());
    assert_eq!(s.read_bytes, 0);
    assert_eq!(s.write_bytes, 0);
    assert_eq!(Summary::pipe().file, "PIPE");
    assert_eq!(Summary::socket().file, "SOCKET");
}

#[test]
fn updates_count_operations_and_bytes() {
    let mut s = Summary::new("/f");
    s.update_read(4096, 4096);
    s.update_read(4096, 100);
    s.update_read(512, 0);
    s.update_write(10, 10);
    assert_eq!(s.read_freq, HashMap::from([(4096, 2), (512, 1)]));
    assert_eq!(s.read_bytes, 4196);
    assert_eq!(s.write_freq, HashMap::from([(10, 1)]));
    assert_eq!(s.write_bytes, 10);
    assert_eq!(s.file, "/f");
}

#[test]
fn reset_keeps_the_name_only() {
    let mut s = Summary::new("/f");
    s.update_read(8, 8);
    s.update_write(9, 9);
    s.reset();
    assert_eq!(s.file, "/f");
    assert!(s.read_freq.is_empty());
    assert!(s.write_freq.is_empty());
    assert_eq!(s.read_bytes, 0);
    assert_eq!(s.write_bytes, 0);
}

#[test]
fn clone_is_a_copy() {
    let mut s = Summary::new("/f");
    s.update_read(8, 5);
    let mut c = s.clone();
    c.update_read(8, 5);
    assert_eq!(s.read_bytes, 5);
    assert_eq!(c.read_bytes, 10);
    assert_eq!(c.file, "/f");
    assert_eq!(s.read_freq, HashMap::from([(8, 1)]));
    assert_eq!(c.read_freq, HashMap::from([(8, 2)]));
}

#[test]
fn summaries_are_equal_when_all_they_hold_is() {
    let mut a = Summary::new("/f");
    a.update_read(8, 5);
    a.update_read(16, 5);
    a.update_write(1, 1);
    let mut b = Summary::new("/f");
    b.update_read(16, 5);
    b.update_write(1, 1);
    assert_ne!(a, b);
    b.update_read(8, 5);
    assert_eq!(a, b);
    assert_eq!(a, a.clone());
    assert_ne!(a, Summary::new("/f"));
    let mut c = a.clone();
    c.file = "/g".to_string();
    assert_ne!(a, c);
    let mut d = a.clone();
    d.update_write(1, 0);
    assert_ne!(a, d);
    let mut e = a.clone();
    e.write_bytes = 2;
    assert_ne!(a, e);
    assert!(same_counts(&HashMap::new(), &HashMap::new()));
    assert!(same_counts(&HashMap::from([(1, 2), (3, 4)]), &HashMap::from([(3, 4), (1, 2)])));
    assert!(!same_counts(&HashMap::from([(1, 2), (3, 4)]), &HashMap::from([(1, 2), (3, 5)])));
    assert!(!same_counts(&HashMap::from([(1, 2), (3, 4)]), &HashMap::from([(1, 2), (4, 4)])));
    assert!(!same_counts(&HashMap::from([(1, 2)]), &HashMap::from([(1, 2), (4, 4)])));
}

#[test]
fn fits_tells_when_a_counter_is_full() {
    let mut s = Summary::new("/f");
    assert!(s.read_fits(1, u64::MAX));
    s.update_read(1, u64::MAX);
    assert!(s.read_fits(1, 0));
    assert!(!s.read_fits(1, 1));
    assert!(s.write_fits(1, 1));
    s.write_freq.insert(7, u64::MAX);
    assert!(!s.write_fits(7, 0));
    assert!(s.write_fits(8, 0));
}

#[test]
fn noise_is_hidden_unless_verbose() {
    for file in [
        "/bin/ls",
        "/dev/null",
        "/etc/passwd",
        "/lib/x",
        "/lib64/x",
        "/opt/x",
        "/proc/self/maps",
        "/run/x",
        "/sbin/x",
        "/sys/x",
        "/tmp/x",
        "/usr/lib/x",
        "STDOUT",
        "STDERR",
        "STDIN",
        "SOCKET",
        "DUP",
        "PIPE",
    ] {
        assert!(noise(file), "{}", file);
        assert!(!Summary::new(file).should_show(quiet()), "{}", file);
        assert!(Summary::new(file).should_show(all()), "{}", file);
    }
    for file in ["/data/in", "rel.txt", "/dev/zero", "/dev/nullx", "/bin", "/tmpx/y", "stdin", "", "/home/usr/x", "PIPES"] {
        assert!(!noise(file), "{}", file);
        assert!(Summary::new(file).should_show(quiet()), "{}", file);
    }
    let debug_only = Config { debug: true, verbose: false, output: Output::Continuous };
    assert!(!Summary::new("/tmp/x").should_show(debug_only));
}

#[test]
fn tally_reports_the_largest_size() {
    let freq = HashMap::from([(512u64, 3u64), (65536, 1), (4096, 10)]);
    assert_eq!(ops_in(&freq), 14);
    assert_eq!(largest_in(&freq), Some(65536));
    assert_eq!(tally(&freq, 999), Some(Tally { bytes: 999, ops: 14, op_size: 65536 }));
    let none: HashMap<u64, u64> = HashMap::new();
    assert_eq!(ops_in(&none), 0);
    assert_eq!(largest_in(&none), None);
    assert_eq!(tally(&none, 5), None);
    let big = HashMap::from([(1u64, u64::MAX), (2, u64::MAX)]);
    assert_eq!(ops_in(&big), 2 * (u64::MAX as u128));
}

#[test]
fn show_says_what_to_report() {
    let mut s = Summary::new("/data/in");
    assert_eq!(s.show(quiet()), Report::Idle);
    s.update_read(65536, 65536);
    s.update_read(65536, 12345);
    assert_eq!(
        s.show(quiet()),
        Report::Lines { read: Some(Tally { bytes: 77881, ops: 2, op_size: 65536 }), write: None }
    );
    s.update_write(10, 4);
    assert_eq!(
        s.show(quiet()),
        Report::Lines {
            read: Some(Tally { bytes: 77881, ops: 2, op_size: 65536 }),
            write: Some(Tally { bytes: 4, ops: 1, op_size: 10 }),
        }
    );
    let mut hidden = Summary::new("/etc/hosts");
    hidden.update_read(1, 1);
    assert_eq!(hidden.show(quiet()), Report::Hidden);
    assert_eq!(
        hidden.show(all()),
        Report::Lines { read: Some(Tally { bytes: 1, ops: 1, op_size: 1 }), write: None }
    );
    assert_eq!(Summary::new("STDIN").show(quiet()), Report::Hidden);
    assert_eq!(Summary::new("STDIN").show(all()), Report::Idle);
}

#[test]
fn tables_keep_the_order_of_the_summaries() {
    let mut a = Summary::new("/a");
    a.update_write(3, 3);
    let mut b = Summary::new("/b");
    b.update_read(5, 5);
    b.update_write(7, 6);
    let mut n = Summary::new("/tmp/n");
    n.update_read(1, 1);
    let idle = Summary::new("/idle");
    let summaries = vec![a, idle, n, b];
    let tables = show_table(&summaries, quiet());
    assert_eq!(tables.reads.len(), 1);
    assert_eq!(tables.reads[0].file, "/b");
    assert_eq!((tables.reads[0].ops, tables.reads[0].bytes, tables.reads[0].op_size), (1, 5, 5));
    let writes: Vec<&str> = tables.writes.iter().map(|r| r.file.as_str()).collect();
    assert_eq!(writes, vec!["/a", "/b"]);
    assert_eq!((tables.writes[1].ops, tables.writes[1].bytes, tables.writes[1].op_size), (1, 6, 7));
    let verbose_tables = show_table(&summaries, all());
    let reads: Vec<&str> = verbose_tables.reads.iter().map(|r| r.file.as_str()).collect();
    assert_eq!(reads, vec!["/tmp/n", "/b"]);
    let empty = show_table(&[], quiet());
    assert!(empty.reads.is_empty() && empty.writes.is_empty());
}

#[test]
fn humanize_is_short() {
    assert_eq!(humanize(0), "0B");
    assert_eq!(humanize(512), "512B");
    assert_eq!(humanize(1023), "1023B");
    assert_eq!(humanize(1024), "1.0K");
    assert_eq!(humanize(65536), "64.0K");
    assert_eq!(humanize(77881), "76.1K");
    assert_eq!(humanize(1_048_576), "1.0M");
    assert_eq!(humanize(1_073_741_824), "1.0G");
}

#[test]
fn shorten_strips_units_and_spaces() {
    assert_eq!(shorten("64.0 KiB"), "64.0K");
    assert_eq!(shorten("512 B"), "512B");
    assert_eq!(shorten("1.5 kiB"), "1.5K");
    assert_eq!(shorten("iB iB"), "");
    assert_eq!(shorten(""), "");
}

#[test]
fn levels_follow_the_flags() {
    let off = quiet();
    let v = all();
    let d = Config { debug: true, verbose: false, output: Output::Continuous };
    assert!(!told(Level::Debug, off));
    assert!(!told(Level::Verbose, off));
    assert!(!told(Level::Debug, v));
    assert!(told(Level::Verbose, v));
    assert!(told(Level::Debug, d));
    assert!(told(Level::Verbose, d));
}

#[test]
fn config_needs_an_output_format() {
    let config = Config::from_flags(true, false, Some(Output::Continuous)).unwrap();
    assert_eq!(config, Config { debug: true, verbose: false, output: Output::Continuous });
    let missing = Config::from_flags(true, true, None).unwrap_err();
    assert_eq!(missing.message(), "no output format specified");
}

#[test]
fn log_lines_follow_the_flags() {
    let off = quiet();
    let v = all();
    let d = Config { debug: true, verbose: false, output: Output::Continuous };
    assert_eq!(debug("m", off), None);
    assert_eq!(debug("m", v), None);
    assert_eq!(debug("m", d), Some("[debug] m".to_string()));
    assert_eq!(verbose("m", off), None);
    assert_eq!(verbose("m", v), Some("m".to_string()));
    assert_eq!(verbose("m", d), Some("m".to_string()));
}

#[test]
fn output_names() {
    assert_eq!(Output::Continuous.name(), "continuous");
    assert_eq!(Output::Table.name(), "table");
    assert_eq!(Output::parse("table"), Some(Output::Table));
    assert_eq!(Output::parse("TABLE"), Some(Output::Table));
    assert_eq!(Output::parse("Continuous"), Some(Output::Continuous));
    assert_eq!(Output::parse("tables"), None);
    assert_eq!(Output::parse(""), None);
    assert_eq!(Output::from_lower("TABLE"), None);
    assert_eq!(Output::from_lower("table"), Some(Output::Table));
    assert_eq!(Output::variants(), vec![Output::Continuous, Output::Table]);
    assert_eq!(Output::default(), Output::Table);
    let config = Config::default();
    assert!(!config.debug);
    assert!(!config.verbose);
    assert_eq!(config.output, Output::Table);
}
