//! The engine: a table from descriptor numbers to summaries, and what each
//! recorded system call does to it.

use std::collections::HashMap;
use vstd::prelude::*;
use vstd::std_specs::hash::*;
use vstd::std_specs::iter::IteratorSpec;
use vstd::string::StringExecFns;
use crate::config::Config;
use crate::order::{ascending, lemma_ascending_unique, sorted};
use crate::recognizer::{matched, Patterns};
use crate::summary::{Summary, SummaryView};
use crate::syscall::{
    calls_view, event_of, events_in, is_number, notes_view, Call, CallView, Event, EventView, Note,
    NoteView, Shape,
};
use crate::text::{all_digits, chars_of, parse_u32, parse_unsigned, same_text};

verus! {

broadcast use vstd::std_specs::hash::group_hash_axioms;

/// The state of the analysis of one trace file: what each open descriptor
/// stands for and what was seen on it, the settings of the run, and the path
/// of the trace file.
#[derive(Debug)]
pub struct Analysis {
    pub fds: HashMap<u32, Summary>,
    pub config: Config,
    pub trace: String,
}

/// The state of an analysis as plain mathematical values.
pub struct AnalysisView {
    pub fds: Map<u32, SummaryView>,
    pub config: Config,
    pub trace: Seq<char>,
}

/// What the caller of the engine has to do, in the order given.
#[derive(Debug)]
pub enum Action {
    /// Hand this finished summary to the output.
    Emit(Summary),
    /// Analyse the trace file of a child process from this state to its end,
    /// before anything that follows.
    Spawn(Analysis),
}

/// An action as plain mathematical values.
pub enum ActionView {
    Emit(SummaryView),
    Spawn(AnalysisView),
}

/// A state together with what reaching it asked of the caller.
pub struct Outcome {
    pub state: AnalysisView,
    pub actions: Seq<ActionView>,
}

/// The table of descriptors as plain values.
pub open spec fn table_view(fds: Map<u32, Summary>) -> Map<u32, SummaryView> {
    fds.map_values(|s: Summary| s@)
}

impl View for Analysis {
    type V = AnalysisView;

    open spec fn view(&self) -> AnalysisView {
        AnalysisView { fds: table_view(self.fds@), config: self.config, trace: self.trace@ }
    }
}

impl View for Action {
    type V = ActionView;

    open spec fn view(&self) -> ActionView {
        match *self {
            Action::Emit(s) => ActionView::Emit(s@),
            Action::Spawn(a) => ActionView::Spawn(a@),
        }
    }
}

/// The views of some actions, in order.
pub open spec fn actions_view(actions: Seq<Action>) -> Seq<ActionView> {
    actions.map_values(|a: Action| a@)
}

/// The view of a summary that may be absent.
pub open spec fn summary_view(s: Option<Summary>) -> Option<SummaryView> {
    match s {
        Some(s) => Some(s@),
        None => None,
    }
}

/// The view of a text that may be absent.
pub open spec fn text_view(s: Option<String>) -> Option<Seq<char>> {
    match s {
        Some(s) => Some(s@),
        None => None,
    }
}

/// What `std::path::Path::join` gives for a directory and a path name, as
/// text: nothing where the result is not valid Unicode.
pub uninterp spec fn joined(dir: Seq<char>, pathname: Seq<char>) -> Option<Seq<char>>;

/// What `std::path::Path::with_extension` gives for a path and an
/// extension, as text: nothing where the result is not valid Unicode.
pub uninterp spec fn with_extension(path: Seq<char>, extension: Seq<char>) -> Option<Seq<char>>;

/// Calls `std::path::Path::join`: the joined path is a function of the two
/// texts alone.
#[verifier::external_body]
fn join(dir: &str, pathname: &str) -> (r: Option<String>)
    ensures
        text_view(r) == joined(dir@, pathname@),
{
    std::path::Path::new(dir).join(pathname).to_str().map(String::from)
}

/// Calls `std::path::Path::with_extension`, which panics on an extension
/// that holds a path separator: the new path is a function of the two texts
/// alone.
#[verifier::external_body]
fn extend(path: &str, extension: &str) -> (r: Option<String>)
    requires
        forall|i: int|
            0 <= i < extension@.len() ==> extension@[i] != '/' && extension@[i] != '\\',
    ensures
        text_view(r) == with_extension(path@, extension@),
{
    std::path::Path::new(path).with_extension(extension).to_str().map(String::from)
}

/// What a line records when held against the pattern of `shape`.
pub open spec fn recognized(shape: Shape, line: Seq<char>) -> Option<EventView> {
    match matched(shape, line) {
        Some(groups) => event_of(shape, groups),
        None => None,
    }
}

/// What a line is recognised as under the first `n` shapes, in the order
/// in which the shapes are tried.
pub open spec fn calls_upto(line: Seq<char>, n: int) -> Seq<CallView>
    decreases n,
{
    if n <= 0 {
        Seq::empty()
    } else {
        let before = calls_upto(line, n - 1);
        match recognized(Shape::at(n - 1), line) {
            Some(event) => before.push(CallView { shape: Shape::at(n - 1), event }),
            None => before,
        }
    }
}

/// All that a line is recognised as: one call for each shape that it
/// matches with numbers that fit, in the order in which the shapes are tried.
pub open spec fn calls_of(line: Seq<char>) -> Seq<CallView> {
    calls_upto(line, Shape::count())
}

/// All that a line records.
pub open spec fn events_of(line: Seq<char>) -> Seq<EventView> {
    events_in(calls_of(line))
}

/// What a step of the engine gives: what is asked of the caller, and the
/// remarks on what was seen.
#[derive(Debug)]
pub struct Stepped {
    pub actions: Vec<Action>,
    pub notes: Vec<Note>,
}

impl AnalysisView {
    /// The state at the start of a process: the three standard streams are open.
    pub open spec fn start(config: Config, trace: Seq<char>) -> AnalysisView {
        AnalysisView {
            fds: Map::<u32, SummaryView>::empty().insert(0, SummaryView::fresh("STDIN"@)).insert(
                1,
                SummaryView::fresh("STDOUT"@),
            ).insert(2, SummaryView::fresh("STDERR"@)),
            config,
            trace,
        }
    }

    /// The summary that `fd` stands for, if it is open.
    pub open spec fn get(self, fd: u32) -> Option<SummaryView> {
        if self.fds.contains_key(fd) {
            Some(self.fds[fd])
        } else {
            None
        }
    }

    /// What leaves the table when `fd` is given up or taken over: the
    /// summary it stood for, if it was open.
    pub open spec fn dropped(self, fd: u32) -> Seq<ActionView> {
        if self.fds.contains_key(fd) {
            seq![ActionView::Emit(self.fds[fd])]
        } else {
            Seq::empty()
        }
    }

    /// The state in which `fd` stands for `summary`.
    pub open spec fn insert(self, fd: u32, summary: SummaryView) -> AnalysisView {
        AnalysisView { fds: self.fds.insert(fd, summary), ..self }
    }

    /// The state in which `fd` is not open.
    pub open spec fn remove(self, fd: u32) -> AnalysisView {
        AnalysisView { fds: self.fds.remove(fd), ..self }
    }

    /// The state after `fd` was opened on the resource `file`.
    pub open spec fn open(self, fd: u32, file: Seq<char>) -> Outcome {
        Outcome { state: self.insert(fd, SummaryView::fresh(file)), actions: self.dropped(fd) }
    }

    /// The state after `fd` was given up.
    pub open spec fn finish(self, fd: u32) -> Outcome {
        Outcome { state: self.remove(fd), actions: self.dropped(fd) }
    }

    /// The name of the resource behind a duplicate of `oldfd`.
    pub open spec fn dup_name(self, oldfd: u32) -> Seq<char> {
        if self.fds.contains_key(oldfd) {
            self.fds[oldfd].file
        } else {
            "DUP"@
        }
    }

    /// The path that `openat` opens: `pathname` as it stands where `dirfd` is
    /// `AT_FDCWD` or no open descriptor, else joined to the name of the
    /// directory that `dirfd` stands for.
    pub open spec fn resolve(self, dirfd: Seq<char>, pathname: Seq<char>) -> Seq<char> {
        if dirfd == "AT_FDCWD"@ {
            pathname
        } else {
            match parse_unsigned(dirfd, u32::MAX as nat) {
                Some(n) if self.fds.contains_key(n as u32) => match joined(
                    self.fds[n as u32].file,
                    pathname,
                ) {
                    Some(path) => path,
                    None => pathname,
                },
                _ => pathname,
            }
        }
    }

    /// The state in which a child process starts on the trace file `trace`:
    /// every descriptor is open on the same resource, with nothing recorded.
    pub open spec fn child(self, trace: Seq<char>) -> AnalysisView {
        AnalysisView {
            fds: self.fds.map_values(|s: SummaryView| s.reset()),
            config: self.config,
            trace,
        }
    }

    /// The state after a read on `fd`: counted where `fd` is open and the
    /// counters have room, else nothing changes.
    pub open spec fn read(self, fd: u32, op_size: u64, bytes: u64) -> AnalysisView {
        if self.fds.contains_key(fd) && self.fds[fd].read_fits(op_size, bytes) {
            self.insert(fd, self.fds[fd].record_read(op_size, bytes))
        } else {
            self
        }
    }

    /// The state after a write on `fd`: counted where `fd` is open and the
    /// counters have room, else nothing changes.
    pub open spec fn write(self, fd: u32, op_size: u64, bytes: u64) -> AnalysisView {
        if self.fds.contains_key(fd) && self.fds[fd].write_fits(op_size, bytes) {
            self.insert(fd, self.fds[fd].record_write(op_size, bytes))
        } else {
            self
        }
    }

    /// What a `clone` that started `pid` asks for: the analysis of the
    /// child's trace file, which lies beside this one with `pid` as its
    /// extension.
    pub open spec fn spawn(self, pid: Seq<char>) -> Seq<ActionView> {
        if pid.len() > 0 && all_digits(pid) {
            match with_extension(self.trace, pid) {
                Some(trace) => seq![ActionView::Spawn(self.child(trace))],
                None => Seq::empty(),
            }
        } else {
            Seq::empty()
        }
    }

    /// The state after an event, and what the event asks of the caller.
    pub open spec fn apply(self, event: EventView) -> Outcome {
        match event {
            EventView::Open { file, fd } => self.open(fd, file),
            EventView::OpenAt { dirfd, pathname, fd } => self.open(
                fd,
                self.resolve(dirfd, pathname),
            ),
            EventView::Pipe { readend, writeend } => {
                let first = self.open(readend, "PIPE"@);
                let second = first.state.open(writeend, "PIPE"@);
                Outcome { state: second.state, actions: first.actions + second.actions }
            },
            EventView::Socket { fd } => self.open(fd, "SOCKET"@),
            EventView::Dup { oldfd, newfd } => self.open(newfd, self.dup_name(oldfd)),
            EventView::Close { fd, status, error } => if status == 0 || error != "EBADF"@ {
                self.finish(fd)
            } else {
                Outcome { state: self, actions: Seq::empty() }
            },
            EventView::Read { fd, op_size, bytes } => Outcome {
                state: self.read(fd, op_size, bytes),
                actions: Seq::empty(),
            },
            EventView::Write { fd, op_size, bytes } => Outcome {
                state: self.write(fd, op_size, bytes),
                actions: Seq::empty(),
            },
            EventView::Clone { pid } => Outcome { state: self, actions: self.spawn(pid) },
        }
    }

    /// The remark on a descriptor that is taken over while it is open.
    pub open spec fn drop_note(self, syscall: Shape, fd: u32) -> Seq<NoteView> {
        if self.fds.contains_key(fd) {
            seq![NoteView::Dropped { syscall, file: self.fds[fd].file }]
        } else {
            Seq::empty()
        }
    }

    /// The remark on a descriptor that is given up.
    pub open spec fn finish_note(self, syscall: Shape, fd: u32) -> Seq<NoteView> {
        if self.fds.contains_key(fd) {
            seq![NoteView::Finished { syscall, fd, file: self.fds[fd].file }]
        } else {
            seq![NoteView::UnknownFd { syscall, fd }]
        }
    }

    /// The remark on a read or write: none where it is counted.
    pub open spec fn io_note(self, syscall: Shape, fd: u32, fits: bool) -> Seq<NoteView> {
        if !self.fds.contains_key(fd) {
            seq![NoteView::UnknownFd { syscall, fd }]
        } else if !fits {
            seq![NoteView::Full { syscall, fd }]
        } else {
            Seq::empty()
        }
    }

    /// The remarks on an event that was recognised by the shape `syscall`,
    /// in the state before the event is taken in.
    pub open spec fn remarks(self, syscall: Shape, event: EventView) -> Seq<NoteView> {
        match event {
            EventView::Open { file, fd } => seq![NoteView::Opened { syscall, fd, file }]
                + self.drop_note(syscall, fd),
            EventView::OpenAt { dirfd, pathname, fd } => seq![
                NoteView::Opened { syscall, fd, file: self.resolve(dirfd, pathname) },
            ] + self.drop_note(syscall, fd),
            EventView::Pipe { readend, writeend } => seq![NoteView::Piped { readend, writeend }]
                + self.drop_note(syscall, readend) + self.open(readend, "PIPE"@).state.drop_note(
                syscall,
                writeend,
            ),
            EventView::Socket { fd } => seq![NoteView::Socket { fd }] + self.drop_note(syscall, fd),
            EventView::Dup { oldfd, newfd } => (if self.fds.contains_key(oldfd) {
                seq![NoteView::Duplicated { syscall, oldfd, newfd, file: self.fds[oldfd].file }]
            } else {
                seq![NoteView::DupUnknown { syscall, oldfd }]
            }) + self.drop_note(syscall, newfd),
            EventView::Close { fd, status, error } => if status == 0 {
                self.finish_note(syscall, fd)
            } else if error == "EBADF"@ {
                seq![NoteView::BadFd { fd }]
            } else {
                seq![NoteView::CloseFailed { fd, error }] + self.finish_note(syscall, fd)
            },
            EventView::Read { fd, op_size, bytes } => self.io_note(
                syscall,
                fd,
                self.fds[fd].read_fits(op_size, bytes),
            ),
            EventView::Write { fd, op_size, bytes } => self.io_note(
                syscall,
                fd,
                self.fds[fd].write_fits(op_size, bytes),
            ),
            EventView::Clone { pid } => if pid.len() > 0 && all_digits(pid) {
                match with_extension(self.trace, pid) {
                    Some(trace) => seq![NoteView::Tracing { pid, trace }],
                    None => Seq::empty(),
                }
            } else {
                Seq::empty()
            },
        }
    }

    /// The remarks on some recognised lines that are taken in one after the
    /// other, in order.
    pub open spec fn remarks_all(self, calls: Seq<CallView>) -> Seq<NoteView>
        decreases calls.len(),
    {
        if calls.len() == 0 {
            Seq::empty()
        } else {
            let before = calls.drop_last();
            self.remarks_all(before) + self.apply_all(events_in(before)).state.remarks(
                calls.last().shape,
                calls.last().event,
            )
        }
    }

    /// The remarks on a line of the trace.
    pub open spec fn step_notes(self, line: Seq<char>) -> Seq<NoteView> {
        self.remarks_all(calls_of(line))
    }

    /// The state after some events, and what they ask of the caller, in order.
    pub open spec fn apply_all(self, events: Seq<EventView>) -> Outcome
        decreases events.len(),
    {
        if events.len() == 0 {
            Outcome { state: self, actions: Seq::empty() }
        } else {
            let before = self.apply_all(events.drop_last());
            let last = before.state.apply(events.last());
            Outcome { state: last.state, actions: before.actions + last.actions }
        }
    }

    /// The state after a line of the trace, and what the line asks of the caller.
    pub open spec fn step(self, line: Seq<char>) -> Outcome {
        self.apply_all(events_of(line))
    }

    /// Whether `summaries` are those of all open descriptors, each once, in
    /// the ascending order of the descriptor numbers.
    pub open spec fn residue(self, summaries: Seq<SummaryView>) -> bool {
        exists|fds: Seq<u32>| #[trigger] self.lists(fds, summaries)
    }

    /// Whether `fds` are the numbers of all open descriptors in ascending
    /// order, and `summaries` what they stand for, in that order.
    pub open spec fn lists(self, fds: Seq<u32>, summaries: Seq<SummaryView>) -> bool {
        &&& ascending(fds)
        &&& fds.to_set() == self.fds.dom()
        &&& fds.len() == summaries.len()
        &&& forall|i: int| 0 <= i < fds.len() ==> summaries[i] == self.fds[#[trigger] fds[i]]
    }

    /// The summaries of all open descriptors, each once, in the ascending
    /// order of the descriptor numbers: what is left to hand out when the
    /// trace file ends.
    pub open spec fn residue_of(self) -> Seq<SummaryView> {
        choose|summaries: Seq<SummaryView>| self.residue(summaries)
    }

    /// There is one way only to hand out what is left.
    pub proof fn lemma_residue_unique(self, first: Seq<SummaryView>, second: Seq<SummaryView>)
        requires
            self.residue(first),
            self.residue(second),
        ensures
            first == second,
    {
        let a = choose|fds: Seq<u32>| #[trigger] self.lists(fds, first);
        let b = choose|fds: Seq<u32>| #[trigger] self.lists(fds, second);
        lemma_ascending_unique(a, b);
        assert(first.len() == second.len());
        assert forall|i: int| 0 <= i < first.len() implies first[i] == second[i] by {
            assert(first[i] == self.fds[a[i]]);
            assert(second[i] == self.fds[b[i]]);
        }
        assert(first =~= second);
    }
}

/// What handing out a summary that left the table asks of the caller.
pub open spec fn emitted(summary: Option<SummaryView>) -> Seq<ActionView> {
    match summary {
        Some(s) => seq![ActionView::Emit(s)],
        None => Seq::empty(),
    }
}

/// Adds to `out` the action that hands out `summary`, if there is one.
fn emit(out: &mut Vec<Action>, summary: Option<Summary>)
    ensures
        actions_view(final(out)@) == actions_view(old(out)@) + emitted(summary_view(summary)),
{
    match summary {
        Some(s) => {
            out.push(Action::Emit(s));
            assert(actions_view(out@) =~= actions_view(old(out)@) + emitted(Some(s@)));
        },
        None => {
            assert(actions_view(out@) =~= actions_view(old(out)@) + emitted(None));
        },
    }
}

impl Analysis {
    /// The state at the start of a process, with no trace file named yet:
    /// the three standard streams are open.
    pub fn new(config: Config) -> (r: Analysis)
        ensures
            r@ == AnalysisView::start(config, Seq::empty()),
    {
        let mut fds: HashMap<u32, Summary> = HashMap::new();
        fds.insert(0, Summary::new("STDIN"));
        fds.insert(1, Summary::new("STDOUT"));
        fds.insert(2, Summary::new("STDERR"));
        let r = Analysis { fds, config, trace: String::new() };
        assert(r@.fds =~= AnalysisView::start(config, Seq::empty()).fds);
        r
    }

    /// The state in which the analysis of the trace file `trace` starts.
    pub fn on(trace: &str, config: Config) -> (r: Analysis)
        ensures
            r@ == AnalysisView::start(config, trace@),
    {
        let mut analysis = Analysis::new(config);
        analysis.trace = String::from_str(trace);
        analysis
    }

    /// The summary that `fd` stands for, if it is open.
    pub fn get(&self, fd: u32) -> (r: Option<&Summary>)
        ensures
            match r {
                Some(s) => self@.get(fd) == Some(s@),
                None => self@.get(fd) is None,
            },
    {
        self.fds.get(&fd)
    }

    /// Lets `fd` stand for `summary`. Returns the summary that `fd` stood
    /// for until now, if it was open: it is finished.
    pub fn insert(&mut self, fd: u32, summary: Summary) -> (dropped: Option<Summary>)
        ensures
            final(self)@ == old(self)@.insert(fd, summary@),
            summary_view(dropped) == old(self)@.get(fd),
    {
        let dropped = self.fds.insert(fd, summary);
        assert(self@.fds =~= old(self)@.fds.insert(fd, summary@));
        dropped
    }

    /// Gives `fd` up. Returns the summary that it stood for, if it was open:
    /// it is finished.
    pub fn finish(&mut self, fd: u32) -> (finished: Option<Summary>)
        ensures
            final(self)@ == old(self)@.remove(fd),
            summary_view(finished) == old(self)@.get(fd),
    {
        let finished = self.fds.remove(&fd);
        assert(self@.fds =~= old(self)@.fds.remove(fd));
        finished
    }

    /// Lets `newfd` stand for the resource of `oldfd`, with nothing recorded;
    /// for a resource named `DUP` where `oldfd` is not open. Returns the
    /// summary that `newfd` stood for until now, if it was open.
    pub fn dup(&mut self, oldfd: u32, newfd: u32) -> (dropped: Option<Summary>)
        ensures
            final(self)@ == old(self)@.insert(
                newfd,
                SummaryView::fresh(old(self)@.dup_name(oldfd)),
            ),
            summary_view(dropped) == old(self)@.get(newfd),
    {
        let summary = match self.fds.get(&oldfd) {
            Some(old_summary) => Summary::new(old_summary.file.as_str()),
            None => Summary::new("DUP"),
        };
        self.insert(newfd, summary)
    }

    /// The path that `openat` opens for `pathname` relative to `dirfd`.
    pub fn join_paths(&self, dirfd: &str, pathname: &str) -> (r: String)
        ensures
            r@ == self@.resolve(dirfd@, pathname@),
    {
        if same_text(dirfd, "AT_FDCWD") {
            return String::from_str(pathname);
        }
        let digits = chars_of(dirfd);
        match parse_u32(digits.as_slice()) {
            Some(n) => match self.fds.get(&n) {
                Some(dir) => match join(dir.file.as_str(), pathname) {
                    Some(path) => path,
                    None => String::from_str(pathname),
                },
                None => String::from_str(pathname),
            },
            None => String::from_str(pathname),
        }
    }

    /// The state in which a child process starts on the trace file `trace`.
    pub fn child(&self, trace: String) -> (r: Analysis)
        ensures
            r@ == self@.child(trace@),
    {
        let mut fds: HashMap<u32, Summary> = HashMap::new();
        proof {
            let keys = spec_keys_iter(&self.fds).remaining();
            assert forall|i: int| 0 <= i < keys.len() implies self.fds@.contains_key(
                #[trigger] keys.unref()[i],
            ) by {
                assert(keys.unref().to_set().contains(keys.unref()[i]));
            }
        }
        for fd in it: self.fds.keys()
            invariant
                it.seq().unref().to_set() == self.fds@.dom(),
                forall|i: int|
                    0 <= i < it.seq().len() ==> self.fds@.contains_key(
                        #[trigger] it.seq().unref()[i],
                    ),
                forall|i: int|
                    0 <= i < it.index() ==> fds@.contains_key(#[trigger] it.seq().unref()[i]),
                forall|k: u32| #[trigger]
                    fds@.contains_key(k) ==> self.fds@.contains_key(k) && fds@[k]@
                        == self.fds@[k]@.reset(),
        {
            assert(it.seq().unref()[it.index() as int] == *fd);
            match self.fds.get(fd) {
                Some(summary) => {
                    fds.insert(*fd, Summary::new(summary.file.as_str()));
                },
                None => {},
            }
        }
        let r = Analysis { fds, config: self.config, trace };
        proof {
            assert forall|k: u32| self.fds@.contains_key(k) implies fds@.contains_key(k) by {
                assert(self.fds@.dom().contains(k));
            }
            assert(r@.fds =~= self@.child(trace@).fds);
        }
        r
    }

    /// What a `clone` that started `pid` asks of the caller.
    pub fn spawn(&self, pid: &str) -> (r: Vec<Action>)
        ensures
            actions_view(r@) == self@.spawn(pid@),
    {
        let mut out: Vec<Action> = Vec::new();
        if is_number(pid) {
            assert forall|i: int| 0 <= i < pid@.len() implies pid@[i] != '/' && pid@[i] != '\\' by {
                assert(crate::text::is_digit(pid@[i]));
            }
            match extend(self.trace.as_str(), pid) {
                Some(trace) => {
                    let child = self.child(trace);
                    out.push(Action::Spawn(child));
                    assert(actions_view(out@) =~= seq![ActionView::Spawn(child@)]);
                },
                None => {
                    assert(actions_view(out@) =~= Seq::empty());
                },
            }
        } else {
            assert(actions_view(out@) =~= Seq::empty());
        }
        out
    }
    /// Counts a read on `fd`, where `fd` is open and the counters have room.
    pub fn read(&mut self, fd: u32, op_size: u64, bytes: u64)
        ensures
            final(self)@ == old(self)@.read(fd, op_size, bytes),
    {
        let fits = match self.fds.get(&fd) {
            Some(summary) => summary.read_fits(op_size, bytes),
            None => false,
        };
        if fits {
            match self.fds.remove(&fd) {
                Some(mut summary) => {
                    summary.update_read(op_size, bytes);
                    self.fds.insert(fd, summary);
                },
                None => {},
            }
            assert(self@.fds =~= old(self)@.read(fd, op_size, bytes).fds);
        }
    }

    /// Counts a write on `fd`, where `fd` is open and the counters have room.
    pub fn write(&mut self, fd: u32, op_size: u64, bytes: u64)
        ensures
            final(self)@ == old(self)@.write(fd, op_size, bytes),
    {
        let fits = match self.fds.get(&fd) {
            Some(summary) => summary.write_fits(op_size, bytes),
            None => false,
        };
        if fits {
            match self.fds.remove(&fd) {
                Some(mut summary) => {
                    summary.update_write(op_size, bytes);
                    self.fds.insert(fd, summary);
                },
                None => {},
            }
            assert(self@.fds =~= old(self)@.write(fd, op_size, bytes).fds);
        }
    }

    /// Takes one event in: changes the table as the event says, and returns
    /// what it asks of the caller, in order.
    pub fn apply(&mut self, event: &Event) -> (r: Vec<Action>)
        ensures
            final(self)@ == old(self)@.apply(event@).state,
            actions_view(r@) == old(self)@.apply(event@).actions,
    {
        let mut out: Vec<Action> = Vec::new();
        assert(actions_view(out@) =~= Seq::empty());
        match event {
            Event::Open { file, fd } => {
                let dropped = self.insert(*fd, Summary::new(file.as_str()));
                emit(&mut out, dropped);
            },
            Event::OpenAt { dirfd, pathname, fd } => {
                let file = self.join_paths(dirfd.as_str(), pathname.as_str());
                let dropped = self.insert(*fd, Summary::new(file.as_str()));
                emit(&mut out, dropped);
            },
            Event::Pipe { readend, writeend } => {
                let first = self.insert(*readend, Summary::pipe());
                emit(&mut out, first);
                let second = self.insert(*writeend, Summary::pipe());
                emit(&mut out, second);
            },
            Event::Socket { fd } => {
                let dropped = self.insert(*fd, Summary::socket());
                emit(&mut out, dropped);
            },
            Event::Dup { oldfd, newfd } => {
                let dropped = self.dup(*oldfd, *newfd);
                emit(&mut out, dropped);
            },
            Event::Close { fd, status, error } => {
                if *status == 0 || !same_text(error.as_str(), "EBADF") {
                    let finished = self.finish(*fd);
                    emit(&mut out, finished);
                }
            },
            Event::Read { fd, op_size, bytes } => {
                self.read(*fd, *op_size, *bytes);
            },
            Event::Write { fd, op_size, bytes } => {
                self.write(*fd, *op_size, *bytes);
            },
            Event::Clone { pid } => {
                out = self.spawn(pid.as_str());
            },
        }
        assert(actions_view(out@) =~= old(self)@.apply(event@).actions);
        out
    }

    /// The remark on `fd` being taken over by `syscall`, if it is open.
    fn drop_note(&self, syscall: Shape, fd: u32, out: &mut Vec<Note>)
        ensures
            notes_view(final(out)@) == notes_view(old(out)@) + self@.drop_note(syscall, fd),
    {
        match self.fds.get(&fd) {
            Some(summary) => {
                let note = Note::Dropped { syscall, file: summary.file.clone() };
                out.push(note);
                assert(notes_view(out@) =~= notes_view(old(out)@) + seq![note@]);
            },
            None => {
                assert(notes_view(out@) =~= notes_view(old(out)@) + Seq::<NoteView>::empty());
            },
        }
    }

    /// The remark on `fd` being given up by `syscall`.
    fn finish_note(&self, syscall: Shape, fd: u32, out: &mut Vec<Note>)
        ensures
            notes_view(final(out)@) == notes_view(old(out)@) + self@.finish_note(syscall, fd),
    {
        let note = match self.fds.get(&fd) {
            Some(summary) => Note::Finished { syscall, fd, file: summary.file.clone() },
            None => Note::UnknownFd { syscall, fd },
        };
        out.push(note);
        assert(notes_view(out@) =~= notes_view(old(out)@) + seq![note@]);
    }

    /// The remark on a read or write by `syscall` on `fd`, if it is not counted.
    fn io_note(&self, syscall: Shape, fd: u32, fits: bool, out: &mut Vec<Note>)
        ensures
            notes_view(final(out)@) == notes_view(old(out)@) + self@.io_note(syscall, fd, fits),
    {
        if self.fds.get(&fd).is_none() {
            let note = Note::UnknownFd { syscall, fd };
            out.push(note);
            assert(notes_view(out@) =~= notes_view(old(out)@) + seq![note@]);
        } else if !fits {
            let note = Note::Full { syscall, fd };
            out.push(note);
            assert(notes_view(out@) =~= notes_view(old(out)@) + seq![note@]);
        } else {
            assert(notes_view(out@) =~= notes_view(old(out)@) + Seq::<NoteView>::empty());
        }
    }

    /// The remarks on an event that was recognised by the shape `syscall`,
    /// before the event is taken in.
    pub fn remarks(&self, syscall: Shape, event: &Event) -> (r: Vec<Note>)
        ensures
            notes_view(r@) == self@.remarks(syscall, event@),
    {
        let mut out: Vec<Note> = Vec::new();
        assert(notes_view(out@) =~= Seq::empty());
        match event {
            Event::Open { file, fd } => {
                let note = Note::Opened { syscall, fd: *fd, file: file.clone() };
                out.push(note);
                assert(notes_view(out@) =~= seq![note@]);
                self.drop_note(syscall, *fd, &mut out);
            },
            Event::OpenAt { dirfd, pathname, fd } => {
                let file = self.join_paths(dirfd.as_str(), pathname.as_str());
                let note = Note::Opened { syscall, fd: *fd, file };
                out.push(note);
                assert(notes_view(out@) =~= seq![note@]);
                self.drop_note(syscall, *fd, &mut out);
            },
            Event::Pipe { readend, writeend } => {
                let note = Note::Piped { readend: *readend, writeend: *writeend };
                out.push(note);
                assert(notes_view(out@) =~= seq![note@]);
                self.drop_note(syscall, *readend, &mut out);
                if *writeend == *readend {
                    let second = Note::Dropped { syscall, file: String::from_str("PIPE") };
                    let ghost before = notes_view(out@);
                    out.push(second);
                    assert(notes_view(out@) =~= before + seq![second@]);
                } else {
                    self.drop_note(syscall, *writeend, &mut out);
                }
            },
            Event::Socket { fd } => {
                let note = Note::Socket { fd: *fd };
                out.push(note);
                assert(notes_view(out@) =~= seq![note@]);
                self.drop_note(syscall, *fd, &mut out);
            },
            Event::Dup { oldfd, newfd } => {
                let note = match self.fds.get(oldfd) {
                    Some(summary) => Note::Duplicated {
                        syscall,
                        oldfd: *oldfd,
                        newfd: *newfd,
                        file: summary.file.clone(),
                    },
                    None => Note::DupUnknown { syscall, oldfd: *oldfd },
                };
                out.push(note);
                assert(notes_view(out@) =~= seq![note@]);
                self.drop_note(syscall, *newfd, &mut out);
            },
            Event::Close { fd, status, error } => {
                if *status == 0 {
                    self.finish_note(syscall, *fd, &mut out);
                } else if same_text(error.as_str(), "EBADF") {
                    let note = Note::BadFd { fd: *fd };
                    out.push(note);
                    assert(notes_view(out@) =~= seq![note@]);
                } else {
                    let note = Note::CloseFailed { fd: *fd, error: error.clone() };
                    out.push(note);
                    assert(notes_view(out@) =~= seq![note@]);
                    self.finish_note(syscall, *fd, &mut out);
                }
            },
            Event::Read { fd, op_size, bytes } => {
                let fits = match self.fds.get(fd) {
                    Some(summary) => summary.read_fits(*op_size, *bytes),
                    None => false,
                };
                self.io_note(syscall, *fd, fits, &mut out);
            },
            Event::Write { fd, op_size, bytes } => {
                let fits = match self.fds.get(fd) {
                    Some(summary) => summary.write_fits(*op_size, *bytes),
                    None => false,
                };
                self.io_note(syscall, *fd, fits, &mut out);
            },
            Event::Clone { pid } => {
                if is_number(pid.as_str()) {
                    assert forall|i: int| 0 <= i < pid@.len() implies pid@[i] != '/' && pid@[i]
                        != '\\' by {
                        assert(crate::text::is_digit(pid@[i]));
                    }
                    match extend(self.trace.as_str(), pid.as_str()) {
                        Some(trace) => {
                            let note = Note::Tracing { pid: pid.clone(), trace };
                            out.push(note);
                            assert(notes_view(out@) =~= seq![note@]);
                        },
                        None => {},
                    }
                }
            },
        }
        assert(notes_view(out@) =~= self@.remarks(syscall, event@));
        out
    }

    /// Takes some recognised lines in, one after the other. Returns what
    /// they ask of the caller and the remarks on them, each in order.
    pub fn take_all(&mut self, calls: &Vec<Call>) -> (r: Stepped)
        ensures
            final(self)@ == old(self)@.apply_all(events_in(calls_view(calls@))).state,
            actions_view(r.actions@) == old(self)@.apply_all(
                events_in(calls_view(calls@)),
            ).actions,
            notes_view(r.notes@) == old(self)@.remarks_all(calls_view(calls@)),
    {
        let mut actions: Vec<Action> = Vec::new();
        let mut notes: Vec<Note> = Vec::new();
        let ghost all = calls_view(calls@);
        let mut i: usize = 0;
        assert(actions_view(actions@) =~= Seq::empty());
        assert(notes_view(notes@) =~= Seq::empty());
        while i < calls.len()
            invariant
                i <= calls.len(),
                all == calls_view(calls@),
                self@ == old(self)@.apply_all(events_in(all.take(i as int))).state,
                actions_view(actions@) == old(self)@.apply_all(
                    events_in(all.take(i as int)),
                ).actions,
                notes_view(notes@) == old(self)@.remarks_all(all.take(i as int)),
            decreases calls.len() - i,
        {
            proof {
                assert(all.take(i + 1).drop_last() =~= all.take(i as int));
                assert(all.take(i + 1).last() == calls@[i as int]@);
                assert(events_in(all.take(i + 1)).drop_last() =~= events_in(all.take(i as int)));
                assert(events_in(all.take(i + 1)).last() == calls@[i as int]@.event);
            }
            let call = &calls[i];
            let ghost noted = notes_view(notes@);
            let mut remarks = self.remarks(call.shape, &call.event);
            let ghost remarked = notes_view(remarks@);
            notes.append(&mut remarks);
            assert(notes_view(notes@) =~= noted + remarked);
            let ghost before = actions_view(actions@);
            let mut more = self.apply(&call.event);
            let ghost added = actions_view(more@);
            actions.append(&mut more);
            assert(actions_view(actions@) =~= before + added);
            i += 1;
        }
        assert(all.take(calls.len() as int) =~= all);
        Stepped { actions, notes }
    }

    /// Takes one line of the trace in: holds it against every shape in
    /// order, and takes in what it records. Returns what the line asks of
    /// the caller and the remarks on it, each in order.
    pub fn step(&mut self, patterns: &Patterns, line: &str) -> (r: Stepped)
        ensures
            final(self)@ == old(self)@.step(line@).state,
            actions_view(r.actions@) == old(self)@.step(line@).actions,
            notes_view(r.notes@) == old(self)@.step_notes(line@),
    {
        let calls = classify(patterns, line);
        self.take_all(&calls)
    }

    /// The summaries of all descriptors that are still open, each once, in
    /// the ascending order of the descriptor numbers: what is left to hand
    /// out when the trace file ends.
    pub fn residue(&self) -> (r: Vec<Summary>)
        ensures
            self@.residue(crate::summary::summaries_view(r@)),
            crate::summary::summaries_view(r@) == self@.residue_of(),
    {
        let mut open: Vec<u32> = Vec::new();
        let ghost all: Seq<u32> = spec_keys_iter(&self.fds).remaining().unref();
        for fd in it: self.fds.keys()
            invariant
                it.seq().no_duplicates(),
                it.seq().unref().to_set() == self.fds@.dom(),
                all == it.seq().unref(),
                open@ == all.take(it.index() as int),
        {
            assert(it.seq().unref()[it.index() as int] == *fd);
            open.push(*fd);
            assert(open@ =~= all.take(it.index() + 1));
        }
        assert(open@ =~= all);
        let fds = sorted(&open);
        let mut out: Vec<Summary> = Vec::new();
        let mut i: usize = 0;
        while i < fds.len()
            invariant
                i <= fds.len(),
                fds@.to_set() == self.fds@.dom(),
                out@.len() == i,
                forall|k: int| 0 <= k < i ==> (#[trigger] out@[k])@ == self@.fds[fds@[k]],
            decreases fds.len() - i,
        {
            assert(fds@.to_set().contains(fds@[i as int]));
            match self.fds.get(&fds[i]) {
                Some(summary) => {
                    out.push(summary.clone());
                },
                None => {
                    out.push(Summary::new(""));
                },
            }
            i += 1;
        }
        proof {
            let found = crate::summary::summaries_view(out@);
            let listed = fds@;
            assert forall|k: int| 0 <= k < listed.len() implies found[k] == self@.fds[#[trigger] listed[k]] by {
                assert(out@[k]@ == found[k]);
            }
            assert(fds@.to_set() =~= self@.fds.dom());
            assert(self@.lists(fds@, found));
            assert(self@.residue(found));
            self@.lemma_residue_unique(found, self@.residue_of());
        }
        out
    }
}

/// All that a line is recognised as: the line is held against each shape in
/// order, and each shape that it matches gives at most one call.
pub fn classify(patterns: &Patterns, line: &str) -> (r: Vec<Call>)
    ensures
        calls_view(r@) == calls_of(line@),
{
    let mut calls: Vec<Call> = Vec::new();
    let mut i: usize = 0;
    assert(calls_view(calls@) =~= Seq::empty());
    loop
        invariant
            i <= 14,
            calls_view(calls@) == calls_upto(line@, i as int),
        ensures
            calls_view(calls@) == calls_upto(line@, 14),
        decreases 14 - i,
    {
        let shape = match Shape::nth(i) {
            Some(shape) => shape,
            None => {
                break ;
            },
        };
        let found = patterns.groups(shape, line);
        let ghost before = calls_view(calls@);
        match found {
            Some(groups) => match Event::from_groups(shape, &groups) {
                Some(event) => {
                    let call = Call { shape, event };
                    calls.push(call);
                    assert(calls_view(calls@) =~= before.push(call@));
                },
                None => {},
            },
            None => {},
        }
        i += 1;
    }
    calls
}

} // verus!
