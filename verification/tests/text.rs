use strace_analyzer::order::sorted;
use strace_analyzer::syscall::{is_number, Event, PatternError, Shape};
use strace_analyzer::text::{begins_with, chars_of, parse_i32, parse_u32, parse_u64, same_chars, same_text};

fn chars(s: &str) -> Vec<char> {
    s.chars().collect()
}

#[test]
fn chars_of_keeps_every_character() {
    assert_eq!(chars_of(""), Vec::<char>::new());
    assert_eq!(chars_of("a/ü€"), vec!['a', '/', 'ü', '€']);
}

#[test]
fn same_text_compares_characters() {
    assert!(same_text("", ""));
    assert!(same_text("EBADF", "EBADF"));
    assert!(!same_text("EBADF", "EBADFX"));
    assert!(!same_text("EBADF", "EBADG"));
    assert!(same_chars(&chars("ab"), &chars("ab")));
    assert!(!same_chars(&chars("ab"), &chars("ba")));
}

#[test]
fn begins_with_is_prefix() {
    assert!(begins_with(&chars("/usr/lib"), &chars("/usr/")));
    assert!(begins_with(&chars("/usr/"), &chars("/usr/")));
    assert!(!begins_with(&chars("/usr"), &chars("/usr/")));
    assert!(!begins_with(&chars("x/usr/"), &chars("/usr/")));
    assert!(begins_with(&chars("abc"), &chars("")));
}

#[test]
fn unsigned_numbers() {
    assert_eq!(parse_u64(&chars("0")), Some(0));
    assert_eq!(parse_u64(&chars("007")), Some(7));
    assert_eq!(parse_u64(&chars("65536")), Some(65536));
    assert_eq!(parse_u64(&chars("18446744073709551615")), Some(u64::MAX));
    assert_eq!(parse_u64(&chars("18446744073709551616")), None);
    assert_eq!(parse_u64(&chars("99999999999999999999999")), None);
    assert_eq!(parse_u64(&chars("")), None);
    assert_eq!(parse_u64(&chars("12a")), None);
    assert_eq!(parse_u64(&chars("-1")), None);
    assert_eq!(parse_u64(&chars("+1")), None);
    assert_eq!(parse_u64(&chars("١٢")), None);
    assert_eq!(parse_u32(&chars("4294967295")), Some(u32::MAX));
    assert_eq!(parse_u32(&chars("4294967296")), None);
    assert_eq!(parse_u32(&chars("3")), Some(3));
    assert_eq!(parse_u32(&chars("")), None);
}

#[test]
fn signed_numbers() {
    assert_eq!(parse_i32(&chars("0")), Some(0));
    assert_eq!(parse_i32(&chars("-0")), Some(0));
    assert_eq!(parse_i32(&chars("-1")), Some(-1));
    assert_eq!(parse_i32(&chars("2147483647")), Some(i32::MAX));
    assert_eq!(parse_i32(&chars("2147483648")), None);
    assert_eq!(parse_i32(&chars("-2147483648")), Some(i32::MIN));
    assert_eq!(parse_i32(&chars("-2147483649")), None);
    assert_eq!(parse_i32(&chars("-")), None);
    assert_eq!(parse_i32(&chars("")), None);
    assert_eq!(parse_i32(&chars("--1")), None);
    assert_eq!(parse_i32(&chars("1-")), None);
}

#[test]
fn is_number_wants_digits() {
    assert!(is_number("4711"));
    assert!(is_number("0"));
    assert!(!is_number(""));
    assert!(!is_number("47/11"));
    assert!(!is_number("-1"));
}

#[test]
fn shapes_are_tried_in_order() {
    let expected = [
        Shape::Creat,
        Shape::Close,
        Shape::Clone,
        Shape::Dup,
        Shape::Dup2,
        Shape::FcntlDup,
        Shape::Open,
        Shape::Openat,
        Shape::Pipe,
        Shape::Pread,
        Shape::Pwrite,
        Shape::Read,
        Shape::Socket,
        Shape::Write,
    ];
    for (i, shape) in expected.iter().enumerate() {
        assert_eq!(Shape::nth(i), Some(*shape));
        assert_eq!(shape.index(), i);
        assert!(shape.pattern().starts_with('^'));
        assert!(shape.pattern().ends_with('$'));
    }
    assert_eq!(Shape::nth(14), None);
    assert_eq!(Shape::nth(usize::MAX), None);
    assert_eq!(Shape::FcntlDup.name(), "fcntl-dup");
    assert_eq!(Shape::Pread.name(), "pread");
    assert_eq!(Shape::Read.pattern(), r#"^read\((\d+),.*, (\d+)\)\s+= (\d+)$"#);
    assert_eq!(PatternError { shape: Shape::Read }.shape, Shape::Read);
}

#[test]
fn events_from_groups() {
    let some = |texts: &[&str]| -> Vec<Option<String>> {
        texts.iter().map(|t| Some(t.to_string())).collect()
    };
    assert!(matches!(
        Event::from_groups(Shape::Open, &some(&["/a", "3"])),
        Some(Event::Open { file, fd: 3 }) if file == "/a"
    ));
    assert!(Event::from_groups(Shape::Open, &some(&["/a"])).is_none());
    assert!(Event::from_groups(Shape::Open, &some(&["/a", "x"])).is_none());
    assert!(Event::from_groups(Shape::Open, &vec![None, Some("3".to_string())]).is_none());
    assert!(matches!(
        Event::from_groups(Shape::Pipe, &some(&["3", "4", "0"])),
        Some(Event::Pipe { readend: 3, writeend: 4 })
    ));
    assert!(matches!(
        Event::from_groups(Shape::Close, &some(&["3", "-1", "EBADF"])),
        Some(Event::Close { fd: 3, status: -1, error }) if error == "EBADF"
    ));
    assert!(Event::from_groups(Shape::Close, &some(&["3", "-1"])).is_none());
    assert!(matches!(
        Event::from_groups(Shape::Pwrite, &some(&["3", "10", "4"])),
        Some(Event::Write { fd: 3, op_size: 10, bytes: 4 })
    ));
    assert!(Event::from_groups(Shape::Read, &some(&["3", "10", ""])).is_none());
    assert!(matches!(
        Event::from_groups(Shape::Clone, &some(&["12"])),
        Some(Event::Clone { pid }) if pid == "12"
    ));
    assert!(Event::from_groups(Shape::Clone, &some(&["1/2"])).is_none());
    assert!(Event::from_groups(Shape::Socket, &some(&[])).is_none());
}

#[test]
fn sorted_orders_and_drops_repeats() {
    assert_eq!(sorted(&vec![]), Vec::<u32>::new());
    assert_eq!(sorted(&vec![3, 1, 2]), vec![1, 2, 3]);
    assert_eq!(sorted(&vec![5, 5, 0, u32::MAX, 0]), vec![0, 5, u32::MAX]);
    assert_eq!(sorted(&vec![1, 2, 3]), vec![1, 2, 3]);
}
