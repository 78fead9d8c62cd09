use std::collections::HashMap;

use strace_analyzer::analysis::{classify, Action, Analysis};
use strace_analyzer::session::{run, Input};
use strace_analyzer::config::Config;
use strace_analyzer::output::Output;
use strace_analyzer::recognizer::Patterns;
use strace_analyzer::summary::Summary;
use strace_analyzer::syscall::Event;

fn config() -> Config {
    Config { debug: false, verbose: false, output: Output::Continuous }
}

fn feed(analysis: &mut Analysis, lines: &[&str]) -> Vec<Action> {
    let patterns = Patterns::new().unwrap();
    let mut actions = Vec::new();
    for line in lines {
        actions.extend(analysis.step(&patterns, line).actions);
    }
    actions
}

fn emitted(actions: Vec<Action>) -> Vec<Summary> {
    let mut summaries = Vec::new();
    for action in actions {
        match action {
            Action::Emit(summary) => summaries.push(summary),
            Action::Spawn(_) => panic!("no child process was expected"),
        }
    }
    summaries
}

fn find<'a>(summaries: &'a [Summary], file: &str) -> Vec<&'a Summary> {
    summaries.iter().filter(|s| s.file == file).collect()
}

#[test]
fn analyze_dd() {
    let mut lines: Vec<String> = vec![
        "execve(\"/usr/bin/dd\", [\"dd\", \"if=/dev/zero\", \"of=/dev/null\", \"bs=1M\", \"count=1024\", \"status=none\"], 0x7ffd 0 vars */) = 0".to_string(),
        "openat(AT_FDCWD, \"/dev/zero\", O_RDONLY) = 3".to_string(),
        "dup2(3, 0)                              = 0".to_string(),
        "close(3)                                = 0".to_string(),
        "openat(AT_FDCWD, \"/dev/null\", O_WRONLY|O_CREAT|O_TRUNC, 0666) = 3".to_string(),
        "dup2(3, 1)                              = 1".to_string(),
        "close(3)                                = 0".to_string(),
    ];
    for _ in 0..1024 {
        lines.push("read(0, \"\"..., 1048576)                 = 1048576".to_string());
        lines.push("write(1, \"\"..., 1048576)                = 1048576".to_string());
    }
    lines.push("close(0)                                = 0".to_string());
    lines.push("close(1)                                = 0".to_string());
    lines.push("exit_group(0)                           = ?".to_string());
    lines.push("+++ exited with 0 +++".to_string());

    let mut session = run("dd.strace", Config::default()).unwrap();
    let mut summaries = Vec::new();
    for line in lines {
        assert_eq!(session.wants(), Some("dd.strace"));
        summaries.extend(session.feed(Input::Line(line)).finished);
    }
    summaries.extend(session.feed(Input::End).finished);
    assert!(session.done());

    assert!(summaries.contains(&Summary {
        file: "/dev/zero".into(),
        read_freq: HashMap::from([(1_048_576, 1024)]),
        write_freq: HashMap::default(),
        read_bytes: 1_073_741_824,
        write_bytes: 0,
    }));

    assert!(summaries.contains(&Summary {
        file: "/dev/null".into(),
        read_freq: HashMap::default(),
        write_freq: HashMap::from([(1_048_576, 1024)]),
        read_bytes: 0,
        write_bytes: 1_073_741_824,
    }));
}

#[test]
fn open_two_reads_close() {
    let mut analysis = Analysis::on("t.strace", config());
    let summaries = emitted(feed(
        &mut analysis,
        &[
            "open(\"/data/in\", O_RDONLY) = 3",
            "read(3, \"...\", 65536) = 65536",
            "read(3, \"...\", 65536) = 12345",
            "close(3) = 0",
        ],
    ));
    assert_eq!(summaries.len(), 1);
    let s = &summaries[0];
    assert_eq!(s.file, "/data/in");
    assert_eq!(s.read_bytes, 77881);
    assert_eq!(s.read_freq, HashMap::from([(65536, 2)]));
    assert_eq!(s.write_bytes, 0);
    assert!(s.write_freq.is_empty());
    let tally = strace_analyzer::summary::tally(&s.read_freq, s.read_bytes).unwrap();
    assert_eq!(tally.ops, 2);
    assert_eq!(tally.bytes, 77881);
    assert_eq!(tally.op_size, 65536);
    assert!(analysis.get(3).is_none());
}

#[test]
fn reads_of_several_sizes_report_the_largest() {
    let mut analysis = Analysis::on("t.strace", config());
    let summaries = emitted(feed(
        &mut analysis,
        &[
            "open(\"/data/in\", O_RDONLY) = 3",
            "read(3, \"...\", 512) = 512",
            "read(3, \"...\", 4096) = 100",
            "read(3, \"...\", 512) = 0",
            "pread(3, \"...\", 1024, 0) = 1024",
            "close(3) = 0",
        ],
    ));
    assert_eq!(summaries.len(), 1);
    let s = &summaries[0];
    assert_eq!(s.read_freq, HashMap::from([(512, 2), (4096, 1), (1024, 1)]));
    assert_eq!(s.read_bytes, 1636);
    let tally = strace_analyzer::summary::tally(&s.read_freq, s.read_bytes).unwrap();
    assert_eq!(tally.ops, 4);
    assert_eq!(tally.op_size, 4096);
}

#[test]
fn pipe_opens_two_ends() {
    let mut analysis = Analysis::on("t.strace", config());
    let actions = feed(
        &mut analysis,
        &["pipe([3, 4]) = 0", "write(4, \"x\", 10) = 10", "read(3, \"x\", 20) = 10"],
    );
    assert!(actions.is_empty());
    let read_end = analysis.get(3).unwrap();
    let write_end = analysis.get(4).unwrap();
    assert_eq!(read_end.file, "PIPE");
    assert_eq!(write_end.file, "PIPE");
    assert_eq!(read_end.read_bytes, 10);
    assert_eq!(read_end.read_freq, HashMap::from([(20, 1)]));
    assert_eq!(read_end.write_bytes, 0);
    assert!(read_end.write_freq.is_empty());
    assert_eq!(write_end.write_bytes, 10);
    assert_eq!(write_end.write_freq, HashMap::from([(10, 1)]));
    assert_eq!(write_end.read_bytes, 0);
    assert!(write_end.read_freq.is_empty());
}

#[test]
fn openat_resolves_against_the_directory() {
    let mut analysis = Analysis::on("t.strace", config());
    feed(&mut analysis, &["openat(AT_FDCWD, \"rel.txt\", O_RDONLY) = 5"]);
    assert_eq!(analysis.get(5).unwrap().file, "rel.txt");

    let mut analysis = Analysis::on("t.strace", config());
    feed(
        &mut analysis,
        &[
            "open(\"/var/lib\", O_RDONLY|O_DIRECTORY) = 4",
            "openat(4, \"rel.txt\", O_RDONLY) = 5",
        ],
    );
    assert_eq!(analysis.get(5).unwrap().file, "/var/lib/rel.txt");
    assert_eq!(analysis.get(4).unwrap().file, "/var/lib");
}

#[test]
fn openat_with_unknown_directory_keeps_the_name() {
    let mut analysis = Analysis::on("t.strace", config());
    feed(&mut analysis, &["openat(9, \"rel.txt\", O_RDONLY) = 5"]);
    assert_eq!(analysis.get(5).unwrap().file, "rel.txt");
    assert_eq!(analysis.join_paths("9", "rel.txt"), "rel.txt");
    assert_eq!(analysis.join_paths("AT_FDCWD", "a/b"), "a/b");
    assert_eq!(analysis.join_paths("5", "/abs"), "/abs");
    assert_eq!(analysis.join_paths("5", "sub"), "rel.txt/sub");
    assert_eq!(analysis.join_paths("not a number", "sub"), "sub");
}

#[test]
fn dup_takes_the_name_and_no_counters() {
    for line in ["dup(3) = 7", "dup2(3, 7) = 7", "fcntl(3, F_DUPFD, 7) = 7"] {
        let mut analysis = Analysis::on("t.strace", config());
        let actions = feed(
            &mut analysis,
            &[
                "open(\"/data/in\", O_RDONLY) = 3",
                "read(3, \"...\", 100) = 100",
                line,
                "read(7, \"...\", 8) = 5",
            ],
        );
        assert!(actions.is_empty());
        let copy = analysis.get(7).unwrap();
        assert_eq!(copy.file, "/data/in");
        assert_eq!(copy.read_bytes, 5);
        assert_eq!(copy.read_freq, HashMap::from([(8, 1)]));
        let source = analysis.get(3).unwrap();
        assert_eq!(source.read_bytes, 100);
        assert_eq!(source.read_freq, HashMap::from([(100, 1)]));
    }
}

#[test]
fn dup_of_unknown_descriptor_is_named_dup() {
    let mut analysis = Analysis::on("t.strace", config());
    feed(&mut analysis, &["dup(42) = 7"]);
    assert_eq!(analysis.get(7).unwrap().file, "DUP");
}

#[test]
fn close_then_open_drops_nothing() {
    let mut analysis = Analysis::on("t.strace", config());
    let first = emitted(feed(
        &mut analysis,
        &["open(\"/a\", O_RDONLY) = 3", "close(3) = 0"],
    ));
    assert_eq!(first.len(), 1);
    assert_eq!(first[0].file, "/a");
    let second = feed(&mut analysis, &["open(\"/b\", O_RDONLY) = 3"]);
    assert!(second.is_empty());
    assert_eq!(analysis.get(3).unwrap().file, "/b");
}

#[test]
fn open_onto_a_busy_descriptor_emits_the_occupant() {
    let mut analysis = Analysis::on("t.strace", config());
    let summaries = emitted(feed(
        &mut analysis,
        &[
            "open(\"/a\", O_RDONLY) = 3",
            "write(3, \"x\", 4) = 4",
            "creat(\"/b\", 0644) = 3",
        ],
    ));
    assert_eq!(summaries.len(), 1);
    assert_eq!(summaries[0].file, "/a");
    assert_eq!(summaries[0].write_bytes, 4);
    assert_eq!(analysis.get(3).unwrap().file, "/b");
    assert_eq!(analysis.get(3).unwrap().write_bytes, 0);
}

#[test]
fn close_with_ebadf_is_ignored() {
    let mut analysis = Analysis::on("t.strace", config());
    let actions = feed(
        &mut analysis,
        &[
            "open(\"/a\", O_RDONLY) = 3",
            "close(3) = -1 EBADF (Bad file descriptor)",
        ],
    );
    assert!(actions.is_empty());
    assert!(analysis.get(3).is_some());
}

#[test]
fn close_with_another_error_still_closes() {
    let mut analysis = Analysis::on("t.strace", config());
    let summaries = emitted(feed(
        &mut analysis,
        &[
            "open(\"/a\", O_RDONLY) = 3",
            "close(3) = -1 EIO (Input/output error)",
        ],
    ));
    assert_eq!(summaries.len(), 1);
    assert_eq!(summaries[0].file, "/a");
    assert!(analysis.get(3).is_none());
}

#[test]
fn close_of_unknown_descriptor_emits_nothing() {
    let mut analysis = Analysis::on("t.strace", config());
    let actions = feed(&mut analysis, &["close(9) = 0"]);
    assert!(actions.is_empty());
}

#[test]
fn io_on_unknown_descriptor_is_ignored() {
    let mut analysis = Analysis::on("t.strace", config());
    let actions = feed(
        &mut analysis,
        &["read(9, \"x\", 4) = 4", "pwrite(9, \"x\", 4, 0) = 4"],
    );
    assert!(actions.is_empty());
    assert!(analysis.get(9).is_none());
    assert_eq!(analysis.fds.len(), 3);
}

#[test]
fn failed_open_and_noise_are_ignored() {
    let mut analysis = Analysis::on("t.strace", config());
    let actions = feed(
        &mut analysis,
        &[
            "open(\"/missing\", O_RDONLY) = -1 ENOENT (No such file or directory)",
            "mmap(NULL, 8192, PROT_READ, MAP_PRIVATE, 3, 0) = 0x7f",
            "",
            "+++ exited with 0 +++",
        ],
    );
    assert!(actions.is_empty());
    assert_eq!(analysis.fds.len(), 3);
}

#[test]
fn standard_streams_are_open_at_the_start() {
    let analysis = Analysis::on("t.strace", config());
    assert_eq!(analysis.trace, "t.strace");
    assert_eq!(analysis.fds.len(), 3);
    assert_eq!(analysis.get(0).unwrap().file, "STDIN");
    assert_eq!(analysis.get(1).unwrap().file, "STDOUT");
    assert_eq!(analysis.get(2).unwrap().file, "STDERR");
    let fresh = Analysis::new(config());
    assert_eq!(fresh.trace, "");
    assert_eq!(fresh.fds.len(), 3);
}

#[test]
fn socket_is_named_socket() {
    let mut analysis = Analysis::on("t.strace", config());
    feed(&mut analysis, &["socket(AF_INET, SOCK_STREAM, IPPROTO_IP) = 6"]);
    assert_eq!(analysis.get(6).unwrap().file, "SOCKET");
}

#[test]
fn clone_spawns_a_child_with_reset_counters() {
    let mut analysis = Analysis::on("dir/cmd.strace", config());
    let mut actions = feed(
        &mut analysis,
        &[
            "open(\"/data/in\", O_RDONLY) = 3",
            "read(3, \"...\", 100) = 100",
            "clone(child_stack=NULL, flags=CLONE_CHILD_CLEARTID|SIGCHLD) = 4711",
            "close(3) = 0",
        ],
    );
    assert_eq!(actions.len(), 2);
    let last = actions.pop().unwrap();
    let first = actions.pop().unwrap();
    match first {
        Action::Spawn(child) => {
            assert_eq!(child.trace, "dir/cmd.4711");
            assert_eq!(child.fds.len(), 4);
            let inherited = child.get(3).unwrap();
            assert_eq!(inherited.file, "/data/in");
            assert_eq!(inherited.read_bytes, 0);
            assert!(inherited.read_freq.is_empty());
            assert_eq!(child.get(0).unwrap().file, "STDIN");
        }
        Action::Emit(_) => panic!("the child comes first"),
    }
    match last {
        Action::Emit(summary) => {
            assert_eq!(summary.file, "/data/in");
            assert_eq!(summary.read_bytes, 100);
        }
        Action::Spawn(_) => panic!("the close comes last"),
    }
}

#[test]
fn child_changes_leave_the_parent_alone() {
    let mut parent = Analysis::on("cmd.strace", config());
    let mut actions = feed(
        &mut parent,
        &["open(\"/a\", O_RDONLY) = 3", "clone(flags=SIGCHLD) = 12"],
    );
    let mut child = match actions.pop().unwrap() {
        Action::Spawn(child) => child,
        Action::Emit(_) => panic!("a child was expected"),
    };
    let from_child = emitted(feed(&mut child, &["read(3, \"x\", 9) = 9", "close(3) = 0"]));
    assert_eq!(from_child.len(), 1);
    assert_eq!(from_child[0].read_bytes, 9);
    assert_eq!(parent.get(3).unwrap().read_bytes, 0);
    assert_eq!(parent.get(3).unwrap().file, "/a");
}

#[test]
fn residue_holds_every_open_descriptor_once_in_order() {
    let mut analysis = Analysis::on("t.strace", config());
    feed(
        &mut analysis,
        &[
            "open(\"/z\", O_RDONLY) = 40",
            "open(\"/a\", O_RDONLY) = 3",
            "open(\"/b\", O_RDONLY) = 4",
            "open(\"/m\", O_RDONLY) = 17",
            "close(0) = 0",
        ],
    );
    let left = analysis.residue();
    let names: Vec<&str> = left.iter().map(|s| s.file.as_str()).collect();
    assert_eq!(names, vec!["STDOUT", "STDERR", "/a", "/b", "/m", "/z"]);
    assert_eq!(find(&left, "/a").len(), 1);
    assert_eq!(analysis.fds.len(), 6);
}

#[test]
fn same_input_gives_the_same_output() {
    let lines = [
        "open(\"/a\", O_RDONLY) = 3",
        "read(3, \"x\", 9) = 9",
        "dup2(3, 1) = 1",
        "close(3) = 0",
        "clone(flags=SIGCHLD) = 12",
        "close(1) = 0",
    ];
    let mut one = Analysis::on("t.strace", config());
    let mut two = Analysis::on("t.strace", config());
    let describe = |actions: Vec<Action>| -> Vec<String> {
        actions
            .iter()
            .map(|action| match action {
                Action::Emit(s) => {
                    let mut reads: Vec<(u64, u64)> = s.read_freq.iter().map(|(k, v)| (*k, *v)).collect();
                    reads.sort();
                    format!("emit {} {} {} {:?}", s.file, s.read_bytes, s.write_bytes, reads)
                }
                Action::Spawn(child) => {
                    let mut fds: Vec<(u32, String)> =
                        child.fds.iter().map(|(k, v)| (*k, v.file.clone())).collect();
                    fds.sort();
                    format!("spawn {} {:?}", child.trace, fds)
                }
            })
            .collect()
    };
    let a = describe(feed(&mut one, &lines));
    let b = describe(feed(&mut two, &lines));
    assert_eq!(a.len(), 4);
    assert_eq!(a, b);
}

#[test]
fn numbers_that_do_not_fit_are_not_events() {
    let patterns = Patterns::new().unwrap();
    assert!(classify(&patterns, "dup(4294967296) = 3").is_empty());
    assert!(classify(&patterns, "read(3, \"x\", 18446744073709551616) = 1").is_empty());
    assert_eq!(classify(&patterns, "dup(4294967295) = 3").len(), 1);
    assert_eq!(classify(&patterns, "read(3, \"x\", 18446744073709551615) = 1").len(), 1);
    assert!(classify(&patterns, "close(3) = 99999999999").is_empty());
}

#[test]
fn counters_that_would_overflow_stay_as_they_are() {
    let mut analysis = Analysis::on("t.strace", config());
    feed(
        &mut analysis,
        &[
            "open(\"/a\", O_RDONLY) = 3",
            "read(3, \"x\", 8) = 18446744073709551615",
            "read(3, \"x\", 8) = 1",
        ],
    );
    let s = analysis.get(3).unwrap();
    assert_eq!(s.read_bytes, u64::MAX);
    assert_eq!(s.read_freq, HashMap::from([(8, 1)]));
}

#[test]
fn classify_reads_each_shape() {
    let patterns = Patterns::new().unwrap();
    let one = |line: &str| -> Event {
        let mut calls = classify(&patterns, line);
        assert_eq!(calls.len(), 1, "{}", line);
        calls.pop().unwrap().event
    };
    assert!(matches!(one("creat(\"/c\", 0644) = 3"), Event::Open { file, fd: 3 } if file == "/c"));
    assert!(matches!(one("open(\"/o\", O_RDONLY) = 4"), Event::Open { file, fd: 4 } if file == "/o"));
    assert!(matches!(
        one("openat(7, \"p\", O_RDONLY) = 5"),
        Event::OpenAt { dirfd, pathname, fd: 5 } if dirfd == "7" && pathname == "p"
    ));
    assert!(matches!(one("pipe([8, 9]) = 0"), Event::Pipe { readend: 8, writeend: 9 }));
    assert!(matches!(one("socket(AF_UNIX, SOCK_STREAM, 0) = 3"), Event::Socket { fd: 3 }));
    assert!(matches!(one("dup(1) = 2"), Event::Dup { oldfd: 1, newfd: 2 }));
    assert!(matches!(one("dup2(1, 5) = 5"), Event::Dup { oldfd: 1, newfd: 5 }));
    assert!(matches!(one("fcntl(1, F_DUPFD, 10) = 10"), Event::Dup { oldfd: 1, newfd: 10 }));
    assert!(matches!(
        one("close(3) = -1 EBADF (Bad file descriptor)"),
        Event::Close { fd: 3, status: -1, error } if error == "EBADF"
    ));
    assert!(matches!(one("close(3) = 0"), Event::Close { fd: 3, status: 0, error } if error.is_empty()));
    assert!(matches!(one("read(3, \"\", 10) = 4"), Event::Read { fd: 3, op_size: 10, bytes: 4 }));
    assert!(matches!(one("pread(3, \"\", 10, 99) = 4"), Event::Read { fd: 3, op_size: 10, bytes: 4 }));
    assert!(matches!(one("write(3, \"\", 10) = 4"), Event::Write { fd: 3, op_size: 10, bytes: 4 }));
    assert!(matches!(one("pwrite(3, \"\", 10, 99) = 4"), Event::Write { fd: 3, op_size: 10, bytes: 4 }));
    assert!(matches!(one("clone(flags=SIGCHLD) = 77"), Event::Clone { pid } if pid == "77"));
}
