//! The system calls that a trace line may record, and how a line is told apart.

use vstd::prelude::*;
use vstd::string::StringExecFns;
use crate::text::{all_digits, chars_of, parse_i32, parse_signed, parse_u32, parse_u64, parse_unsigned};

verus! {

/// The shapes of line that are recognised, in the order in which a line is
/// held against them.
#[derive(Clone, Copy, Debug, PartialEq, Eq, Structural)]
pub enum Shape {
    Creat,
    Close,
    Clone,
    Dup,
    Dup2,
    FcntlDup,
    Open,
    Openat,
    Pipe,
    Pread,
    Pwrite,
    Read,
    Socket,
    Write,
}

/// A pattern of the library was not accepted as a regular expression.
#[derive(Clone, Copy, Debug, PartialEq, Eq, Structural)]
pub struct PatternError {
    /// The shape whose pattern was refused.
    pub shape: Shape,
}

impl Shape {
    /// The number of shapes.
    pub open spec fn count() -> int {
        14
    }

    /// The shape that is tried at position `i`.
    pub open spec fn at(i: int) -> Shape {
        if i == 0 {
            Shape::Creat
        } else if i == 1 {
            Shape::Close
        } else if i == 2 {
            Shape::Clone
        } else if i == 3 {
            Shape::Dup
        } else if i == 4 {
            Shape::Dup2
        } else if i == 5 {
            Shape::FcntlDup
        } else if i == 6 {
            Shape::Open
        } else if i == 7 {
            Shape::Openat
        } else if i == 8 {
            Shape::Pipe
        } else if i == 9 {
            Shape::Pread
        } else if i == 10 {
            Shape::Pwrite
        } else if i == 11 {
            Shape::Read
        } else if i == 12 {
            Shape::Socket
        } else {
            Shape::Write
        }
    }

    /// The position at which the shape is tried.
    pub open spec fn position(self) -> int {
        match self {
            Shape::Creat => 0,
            Shape::Close => 1,
            Shape::Clone => 2,
            Shape::Dup => 3,
            Shape::Dup2 => 4,
            Shape::FcntlDup => 5,
            Shape::Open => 6,
            Shape::Openat => 7,
            Shape::Pipe => 8,
            Shape::Pread => 9,
            Shape::Pwrite => 10,
            Shape::Read => 11,
            Shape::Socket => 12,
            Shape::Write => 13,
        }
    }

    /// The name under which the system call is spoken of.
    pub open spec fn name_text(self) -> Seq<char> {
        match self {
            Shape::Creat => "creat"@,
            Shape::Close => "close"@,
            Shape::Clone => "clone"@,
            Shape::Dup => "dup"@,
            Shape::Dup2 => "dup2"@,
            Shape::FcntlDup => "fcntl-dup"@,
            Shape::Open => "open"@,
            Shape::Openat => "openat"@,
            Shape::Pipe => "pipe"@,
            Shape::Pread => "pread"@,
            Shape::Pwrite => "pwrite"@,
            Shape::Read => "read"@,
            Shape::Socket => "socket"@,
            Shape::Write => "write"@,
        }
    }

    /// The name under which the system call is spoken of.
    pub fn name(self) -> (r: &'static str)
        ensures
            r@ == self.name_text(),
    {
        match self {
            Shape::Creat => "creat",
            Shape::Close => "close",
            Shape::Clone => "clone",
            Shape::Dup => "dup",
            Shape::Dup2 => "dup2",
            Shape::FcntlDup => "fcntl-dup",
            Shape::Open => "open",
            Shape::Openat => "openat",
            Shape::Pipe => "pipe",
            Shape::Pread => "pread",
            Shape::Pwrite => "pwrite",
            Shape::Read => "read",
            Shape::Socket => "socket",
            Shape::Write => "write",
        }
    }

    /// The regular expression that a line of this shape matches.
    pub open spec fn pattern_text(self) -> Seq<char> {
        match self {
            Shape::Creat => r#"^creat\("([^"]+)", .+\)\s+= (\d+)$"#@,
            Shape::Close => r#"^close\((\d+)\)\s+= (-?\d+)\s*([A-Z]*).*$"#@,
            Shape::Clone => r#"^clone\(.*\)\s+= (\d+)$"#@,
            Shape::Dup => r#"^dup\((\d+)\)\s+= (\d+)$"#@,
            Shape::Dup2 => r#"^dup2\((\d+), \d+\)\s+= (\d+)$"#@,
            Shape::FcntlDup => r#"^fcntl\((\d+), F_DUPFD, \d+\)\s+= (\d+)$"#@,
            Shape::Open => r#"^open\("([^"]+)", .+\)\s+= (\d+)$"#@,
            Shape::Openat => r#"^openat\((\d+|AT_FDCWD), "([^"]+)", .+\)\s+= (\d+)$"#@,
            Shape::Pipe => r#"^pipe\(\[(\d+), (\d+)\]\)\s+= (\d+)$"#@,
            Shape::Pread => r#"^pread\((\d+),.*, (\d+), \d+\)\s+= (\d+)$"#@,
            Shape::Pwrite => r#"^pwrite\((\d+),.*, (\d+), \d+\)\s+= (\d+)$"#@,
            Shape::Read => r#"^read\((\d+),.*, (\d+)\)\s+= (\d+)$"#@,
            Shape::Socket => r#"^socket\(.*\)\s+= (\d+)$"#@,
            Shape::Write => r#"^write\((\d+),.*, (\d+)\)\s+= (\d+)$"#@,
        }
    }

    /// The shape that is tried at position `i`, if there is one.
    pub fn nth(i: usize) -> (r: Option<Shape>)
        ensures
            match r {
                Some(shape) => i < Shape::count() && shape == Shape::at(i as int)
                    && shape.position() == i,
                None => i >= Shape::count(),
            },
    {
        if i == 0 {
            Some(Shape::Creat)
        } else if i == 1 {
            Some(Shape::Close)
        } else if i == 2 {
            Some(Shape::Clone)
        } else if i == 3 {
            Some(Shape::Dup)
        } else if i == 4 {
            Some(Shape::Dup2)
        } else if i == 5 {
            Some(Shape::FcntlDup)
        } else if i == 6 {
            Some(Shape::Open)
        } else if i == 7 {
            Some(Shape::Openat)
        } else if i == 8 {
            Some(Shape::Pipe)
        } else if i == 9 {
            Some(Shape::Pread)
        } else if i == 10 {
            Some(Shape::Pwrite)
        } else if i == 11 {
            Some(Shape::Read)
        } else if i == 12 {
            Some(Shape::Socket)
        } else if i == 13 {
            Some(Shape::Write)
        } else {
            None
        }
    }

    /// The position at which the shape is tried.
    pub fn index(self) -> (r: usize)
        ensures
            r == self.position(),
            r < Shape::count(),
            Shape::at(r as int) == self,
    {
        match self {
            Shape::Creat => 0,
            Shape::Close => 1,
            Shape::Clone => 2,
            Shape::Dup => 3,
            Shape::Dup2 => 4,
            Shape::FcntlDup => 5,
            Shape::Open => 6,
            Shape::Openat => 7,
            Shape::Pipe => 8,
            Shape::Pread => 9,
            Shape::Pwrite => 10,
            Shape::Read => 11,
            Shape::Socket => 12,
            Shape::Write => 13,
        }
    }

    /// The regular expression that a line of this shape matches.
    pub fn pattern(self) -> (r: &'static str)
        ensures
            r@ == self.pattern_text(),
    {
        match self {
            Shape::Creat => r#"^creat\("([^"]+)", .+\)\s+= (\d+)$"#,
            Shape::Close => r#"^close\((\d+)\)\s+= (-?\d+)\s*([A-Z]*).*$"#,
            Shape::Clone => r#"^clone\(.*\)\s+= (\d+)$"#,
            Shape::Dup => r#"^dup\((\d+)\)\s+= (\d+)$"#,
            Shape::Dup2 => r#"^dup2\((\d+), \d+\)\s+= (\d+)$"#,
            Shape::FcntlDup => r#"^fcntl\((\d+), F_DUPFD, \d+\)\s+= (\d+)$"#,
            Shape::Open => r#"^open\("([^"]+)", .+\)\s+= (\d+)$"#,
            Shape::Openat => r#"^openat\((\d+|AT_FDCWD), "([^"]+)", .+\)\s+= (\d+)$"#,
            Shape::Pipe => r#"^pipe\(\[(\d+), (\d+)\]\)\s+= (\d+)$"#,
            Shape::Pread => r#"^pread\((\d+),.*, (\d+), \d+\)\s+= (\d+)$"#,
            Shape::Pwrite => r#"^pwrite\((\d+),.*, (\d+), \d+\)\s+= (\d+)$"#,
            Shape::Read => r#"^read\((\d+),.*, (\d+)\)\s+= (\d+)$"#,
            Shape::Socket => r#"^socket\(.*\)\s+= (\d+)$"#,
            Shape::Write => r#"^write\((\d+),.*, (\d+)\)\s+= (\d+)$"#,
        }
    }
}

/// What a recognised line records.
#[derive(Debug)]
pub enum Event {
    /// `creat` or `open` gave the descriptor `fd` for the path `file`.
    Open { file: String, fd: u32 },
    /// `openat` gave the descriptor `fd` for `pathname`, taken relative to
    /// the directory `dirfd`: a descriptor number or `AT_FDCWD`.
    OpenAt { dirfd: String, pathname: String, fd: u32 },
    /// `pipe` gave a descriptor for each end of a new pipe.
    Pipe { readend: u32, writeend: u32 },
    /// `socket` gave the descriptor `fd`.
    Socket { fd: u32 },
    /// `dup`, `dup2` or `fcntl` with `F_DUPFD` made `newfd` from `oldfd`.
    Dup { oldfd: u32, newfd: u32 },
    /// `close` on `fd` returned `status`, with the error name `error` if any.
    Close { fd: u32, status: i32, error: String },
    /// `read` or `pread` on `fd` asked for `op_size` bytes and got `bytes`.
    Read { fd: u32, op_size: u64, bytes: u64 },
    /// `write` or `pwrite` on `fd` offered `op_size` bytes and wrote `bytes`.
    Write { fd: u32, op_size: u64, bytes: u64 },
    /// `clone` started the process `pid`.
    Clone { pid: String },
}

/// An event as plain mathematical values.
pub enum EventView {
    Open { file: Seq<char>, fd: u32 },
    OpenAt { dirfd: Seq<char>, pathname: Seq<char>, fd: u32 },
    Pipe { readend: u32, writeend: u32 },
    Socket { fd: u32 },
    Dup { oldfd: u32, newfd: u32 },
    Close { fd: u32, status: i32, error: Seq<char> },
    Read { fd: u32, op_size: u64, bytes: u64 },
    Write { fd: u32, op_size: u64, bytes: u64 },
    Clone { pid: Seq<char> },
}

impl View for Event {
    type V = EventView;

    open spec fn view(&self) -> EventView {
        match *self {
            Event::Open { file, fd } => EventView::Open { file: file@, fd },
            Event::OpenAt { dirfd, pathname, fd } => EventView::OpenAt {
                dirfd: dirfd@,
                pathname: pathname@,
                fd,
            },
            Event::Pipe { readend, writeend } => EventView::Pipe { readend, writeend },
            Event::Socket { fd } => EventView::Socket { fd },
            Event::Dup { oldfd, newfd } => EventView::Dup { oldfd, newfd },
            Event::Close { fd, status, error } => EventView::Close { fd, status, error: error@ },
            Event::Read { fd, op_size, bytes } => EventView::Read { fd, op_size, bytes },
            Event::Write { fd, op_size, bytes } => EventView::Write { fd, op_size, bytes },
            Event::Clone { pid } => EventView::Clone { pid: pid@ },
        }
    }
}

/// A recognised line: the shape it had and what it records.
#[derive(Debug)]
pub struct Call {
    pub shape: Shape,
    pub event: Event,
}

/// A recognised line as plain mathematical values.
pub struct CallView {
    pub shape: Shape,
    pub event: EventView,
}

impl View for Call {
    type V = CallView;

    open spec fn view(&self) -> CallView {
        CallView { shape: self.shape, event: self.event@ }
    }
}

/// How much a reader must have asked for to be told of a remark.
#[derive(Clone, Copy, Debug, PartialEq, Eq, Structural)]
pub enum Level {
    /// For those who follow every step.
    Debug,
    /// For those who want to hear of what is out of the ordinary.
    Verbose,
}

/// A remark of the engine on what it saw or did. Remarks go beside the
/// results and never change them.
#[derive(Debug)]
pub enum Note {
    /// `syscall` opened `file` as `fd`.
    Opened { syscall: Shape, fd: u32, file: String },
    /// A pipe was made with these two ends.
    Piped { readend: u32, writeend: u32 },
    /// A socket was made as `fd`.
    Socket { fd: u32 },
    /// `syscall` took over a descriptor that stood for `file` and had not
    /// been closed: the summary of `file` is finished.
    Dropped { syscall: Shape, file: String },
    /// `syscall` made `newfd` stand for `file`, as `oldfd` does.
    Duplicated { syscall: Shape, oldfd: u32, newfd: u32, file: String },
    /// `syscall` duplicated `oldfd`, which is not known to be open.
    DupUnknown { syscall: Shape, oldfd: u32 },
    /// `close` was refused because `fd` was not open.
    BadFd { fd: u32 },
    /// `close` on `fd` failed with `error`; the descriptor counts as closed.
    CloseFailed { fd: u32, error: String },
    /// `syscall` gave up `fd`, which stood for `file`.
    Finished { syscall: Shape, fd: u32, file: String },
    /// `syscall` was seen on `fd`, which is not known to be open.
    UnknownFd { syscall: Shape, fd: u32 },
    /// `syscall` on `fd` was not counted: a counter has no room left.
    Full { syscall: Shape, fd: u32 },
    /// The process `pid` was started; its trace file `trace` is read next.
    Tracing { pid: String, trace: String },
    /// The trace file `trace` of a child process has been read to its end.
    Traced { trace: String },
}

/// A remark as plain mathematical values.
pub enum NoteView {
    Opened { syscall: Shape, fd: u32, file: Seq<char> },
    Piped { readend: u32, writeend: u32 },
    Socket { fd: u32 },
    Dropped { syscall: Shape, file: Seq<char> },
    Duplicated { syscall: Shape, oldfd: u32, newfd: u32, file: Seq<char> },
    DupUnknown { syscall: Shape, oldfd: u32 },
    BadFd { fd: u32 },
    CloseFailed { fd: u32, error: Seq<char> },
    Finished { syscall: Shape, fd: u32, file: Seq<char> },
    UnknownFd { syscall: Shape, fd: u32 },
    Full { syscall: Shape, fd: u32 },
    Tracing { pid: Seq<char>, trace: Seq<char> },
    Traced { trace: Seq<char> },
}

impl View for Note {
    type V = NoteView;

    open spec fn view(&self) -> NoteView {
        match *self {
            Note::Opened { syscall, fd, file } => NoteView::Opened { syscall, fd, file: file@ },
            Note::Piped { readend, writeend } => NoteView::Piped { readend, writeend },
            Note::Socket { fd } => NoteView::Socket { fd },
            Note::Dropped { syscall, file } => NoteView::Dropped { syscall, file: file@ },
            Note::Duplicated { syscall, oldfd, newfd, file } => NoteView::Duplicated {
                syscall,
                oldfd,
                newfd,
                file: file@,
            },
            Note::DupUnknown { syscall, oldfd } => NoteView::DupUnknown { syscall, oldfd },
            Note::BadFd { fd } => NoteView::BadFd { fd },
            Note::CloseFailed { fd, error } => NoteView::CloseFailed { fd, error: error@ },
            Note::Finished { syscall, fd, file } => NoteView::Finished {
                syscall,
                fd,
                file: file@,
            },
            Note::UnknownFd { syscall, fd } => NoteView::UnknownFd { syscall, fd },
            Note::Full { syscall, fd } => NoteView::Full { syscall, fd },
            Note::Tracing { pid, trace } => NoteView::Tracing { pid: pid@, trace: trace@ },
            Note::Traced { trace } => NoteView::Traced { trace: trace@ },
        }
    }
}

impl NoteView {
    /// Who is told of the remark.
    pub open spec fn level(self) -> Level {
        match self {
            NoteView::CloseFailed { .. }
            | NoteView::UnknownFd { .. }
            | NoteView::Full { .. }
            | NoteView::Tracing { .. }
            | NoteView::Traced { .. } => Level::Verbose,
            _ => Level::Debug,
        }
    }
}

impl Note {
    /// Who is told of the remark: what is out of the ordinary is for the
    /// verbose, each step for those who debug.
    pub fn level(&self) -> (r: Level)
        ensures
            r == self@.level(),
    {
        match self {
            Note::CloseFailed { .. }
            | Note::UnknownFd { .. }
            | Note::Full { .. }
            | Note::Tracing { .. }
            | Note::Traced { .. } => Level::Verbose,
            _ => Level::Debug,
        }
    }
}

/// The views of some remarks, in order.
pub open spec fn notes_view(notes: Seq<Note>) -> Seq<NoteView> {
    notes.map_values(|n: Note| n@)
}

/// The views of some recognised lines, in order.
pub open spec fn calls_view(calls: Seq<Call>) -> Seq<CallView> {
    calls.map_values(|c: Call| c@)
}

/// What some recognised lines record, in order.
pub open spec fn events_in(calls: Seq<CallView>) -> Seq<EventView> {
    calls.map_values(|c: CallView| c.event)
}

/// The view of an event that may be absent.
pub open spec fn event_view(e: Option<Event>) -> Option<EventView> {
    match e {
        Some(e) => Some(e@),
        None => None,
    }
}

/// The text of capture group `i`, where there is such a group and it took part.
pub open spec fn text_at(groups: Seq<Option<Seq<char>>>, i: int) -> Option<Seq<char>> {
    if 0 <= i < groups.len() {
        groups[i]
    } else {
        None
    }
}

/// The descriptor number that capture group `i` holds.
pub open spec fn fd_at(groups: Seq<Option<Seq<char>>>, i: int) -> Option<u32> {
    match text_at(groups, i) {
        Some(t) => match parse_unsigned(t, u32::MAX as nat) {
            Some(n) => Some(n as u32),
            None => None,
        },
        None => None,
    }
}

/// The byte count that capture group `i` holds.
pub open spec fn size_at(groups: Seq<Option<Seq<char>>>, i: int) -> Option<u64> {
    match text_at(groups, i) {
        Some(t) => match parse_unsigned(t, u64::MAX as nat) {
            Some(n) => Some(n as u64),
            None => None,
        },
        None => None,
    }
}

/// The return status that capture group `i` holds.
pub open spec fn status_at(groups: Seq<Option<Seq<char>>>, i: int) -> Option<i32> {
    match text_at(groups, i) {
        Some(t) => match parse_signed(t) {
            Some(n) => Some(n as i32),
            None => None,
        },
        None => None,
    }
}

/// What a line of `shape` records, given the texts of its capture groups:
/// nothing where a group is missing or a number does not fit its type.
pub open spec fn event_of(shape: Shape, groups: Seq<Option<Seq<char>>>) -> Option<EventView> {
    match shape {
        Shape::Creat | Shape::Open => match (text_at(groups, 0), fd_at(groups, 1)) {
            (Some(file), Some(fd)) => Some(EventView::Open { file, fd }),
            _ => None,
        },
        Shape::Openat => match (text_at(groups, 0), text_at(groups, 1), fd_at(groups, 2)) {
            (Some(dirfd), Some(pathname), Some(fd)) => Some(
                EventView::OpenAt { dirfd, pathname, fd },
            ),
            _ => None,
        },
        Shape::Pipe => match (fd_at(groups, 0), fd_at(groups, 1)) {
            (Some(readend), Some(writeend)) => Some(EventView::Pipe { readend, writeend }),
            _ => None,
        },
        Shape::Socket => match fd_at(groups, 0) {
            Some(fd) => Some(EventView::Socket { fd }),
            None => None,
        },
        Shape::Dup | Shape::Dup2 | Shape::FcntlDup => match (fd_at(groups, 0), fd_at(groups, 1)) {
            (Some(oldfd), Some(newfd)) => Some(EventView::Dup { oldfd, newfd }),
            _ => None,
        },
        Shape::Close => match (fd_at(groups, 0), status_at(groups, 1), text_at(groups, 2)) {
            (Some(fd), Some(status), Some(error)) => Some(EventView::Close { fd, status, error }),
            _ => None,
        },
        Shape::Read | Shape::Pread => match (
            fd_at(groups, 0),
            size_at(groups, 1),
            size_at(groups, 2),
        ) {
            (Some(fd), Some(op_size), Some(bytes)) => Some(EventView::Read { fd, op_size, bytes }),
            _ => None,
        },
        Shape::Write | Shape::Pwrite => match (
            fd_at(groups, 0),
            size_at(groups, 1),
            size_at(groups, 2),
        ) {
            (Some(fd), Some(op_size), Some(bytes)) => Some(
                EventView::Write { fd, op_size, bytes },
            ),
            _ => None,
        },
        Shape::Clone => match text_at(groups, 0) {
            Some(pid) if pid.len() > 0 && all_digits(pid) => Some(EventView::Clone { pid }),
            _ => None,
        },
    }
}

/// The texts of capture groups as plain values.
pub open spec fn texts(groups: Seq<Option<String>>) -> Seq<Option<Seq<char>>> {
    groups.map_values(
        |g: Option<String>|
            match g {
                Some(s) => Some(s@),
                None => None,
            },
    )
}

/// The text of capture group `i`.
pub fn text_of(groups: &Vec<Option<String>>, i: usize) -> (r: Option<&str>)
    ensures
        match r {
            Some(t) => text_at(texts(groups@), i as int) == Some(t@),
            None => text_at(texts(groups@), i as int) is None,
        },
{
    if i < groups.len() {
        match &groups[i] {
            Some(s) => Some(s.as_str()),
            None => None,
        }
    } else {
        None
    }
}

/// The descriptor number in capture group `i`.
pub fn fd_of(groups: &Vec<Option<String>>, i: usize) -> (r: Option<u32>)
    ensures
        r == fd_at(texts(groups@), i as int),
{
    match text_of(groups, i) {
        Some(t) => {
            let c = chars_of(t);
            parse_u32(c.as_slice())
        },
        None => None,
    }
}

/// The byte count in capture group `i`.
pub fn size_of(groups: &Vec<Option<String>>, i: usize) -> (r: Option<u64>)
    ensures
        r == size_at(texts(groups@), i as int),
{
    match text_of(groups, i) {
        Some(t) => {
            let c = chars_of(t);
            parse_u64(c.as_slice())
        },
        None => None,
    }
}

/// The return status in capture group `i`.
pub fn status_of(groups: &Vec<Option<String>>, i: usize) -> (r: Option<i32>)
    ensures
        r == status_at(texts(groups@), i as int),
{
    match text_of(groups, i) {
        Some(t) => {
            let c = chars_of(t);
            parse_i32(c.as_slice())
        },
        None => None,
    }
}

/// Whether `s` is a non-empty string of ASCII digits.
pub fn is_number(s: &str) -> (r: bool)
    ensures
        r == (s@.len() > 0 && all_digits(s@)),
{
    let c = chars_of(s);
    if c.len() == 0 {
        return false;
    }
    let mut i: usize = 0;
    while i < c.len()
        invariant
            i <= c.len(),
            c@ == s@,
            forall|j: int| 0 <= j < i ==> crate::text::is_digit(#[trigger] c@[j]),
        decreases c.len() - i,
    {
        if !(c[i] >= '0' && c[i] <= '9') {
            return false;
        }
        i += 1;
    }
    true
}

impl Event {
    /// What a line of `shape` records, given the texts of its capture groups.
    pub fn from_groups(shape: Shape, groups: &Vec<Option<String>>) -> (r: Option<Event>)
        ensures
            event_view(r) == event_of(shape, texts(groups@)),
    {
        match shape {
            Shape::Creat | Shape::Open => match (text_of(groups, 0), fd_of(groups, 1)) {
                (Some(file), Some(fd)) => Some(Event::Open { file: String::from_str(file), fd }),
                _ => None,
            },
            Shape::Openat => match (text_of(groups, 0), text_of(groups, 1), fd_of(groups, 2)) {
                (Some(dirfd), Some(pathname), Some(fd)) => Some(
                    Event::OpenAt {
                        dirfd: String::from_str(dirfd),
                        pathname: String::from_str(pathname),
                        fd,
                    },
                ),
                _ => None,
            },
            Shape::Pipe => match (fd_of(groups, 0), fd_of(groups, 1)) {
                (Some(readend), Some(writeend)) => Some(Event::Pipe { readend, writeend }),
                _ => None,
            },
            Shape::Socket => match fd_of(groups, 0) {
                Some(fd) => Some(Event::Socket { fd }),
                None => None,
            },
            Shape::Dup | Shape::Dup2 | Shape::FcntlDup => match (
                fd_of(groups, 0),
                fd_of(groups, 1),
            ) {
                (Some(oldfd), Some(newfd)) => Some(Event::Dup { oldfd, newfd }),
                _ => None,
            },
            Shape::Close => match (fd_of(groups, 0), status_of(groups, 1), text_of(groups, 2)) {
                (Some(fd), Some(status), Some(error)) => Some(
                    Event::Close { fd, status, error: String::from_str(error) },
                ),
                _ => None,
            },
            Shape::Read | Shape::Pread => match (
                fd_of(groups, 0),
                size_of(groups, 1),
                size_of(groups, 2),
            ) {
                (Some(fd), Some(op_size), Some(bytes)) => Some(
                    Event::Read { fd, op_size, bytes },
                ),
                _ => None,
            },
            Shape::Write | Shape::Pwrite => match (
                fd_of(groups, 0),
                size_of(groups, 1),
                size_of(groups, 2),
            ) {
                (Some(fd), Some(op_size), Some(bytes)) => Some(
                    Event::Write { fd, op_size, bytes },
                ),
                _ => None,
            },
            Shape::Clone => match text_of(groups, 0) {
                Some(pid) => if is_number(pid) {
                    Some(Event::Clone { pid: String::from_str(pid) })
                } else {
                    None
                },
                None => None,
            },
        }
    }
}

} // verus!
