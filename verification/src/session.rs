//! A run over a trace file and the trace files of the processes it started.
//!
//! The session says which trace file it wants to read from next; the caller
//! reads one line of it, or finds its end, and feeds that to the session,
//! which answers with the summaries that are finished by it.

use vstd::prelude::*;
use crate::analysis::{actions_view, Action, ActionView, Analysis, AnalysisView};
use crate::config::Config;
use crate::recognizer::{compiled, Patterns};
use crate::summary::{summaries_view, Summary, SummaryView};
use crate::syscall::{notes_view, Note, NoteView, PatternError, Shape};

verus! {

/// The analysis of one trace file, and what its last line still asks for.
#[derive(Debug)]
pub struct Frame {
    pub analysis: Analysis,
    pub pending: Vec<Action>,
}

/// A frame as plain mathematical values.
pub struct FrameView {
    pub state: AnalysisView,
    pub pending: Seq<ActionView>,
}

/// The trace files that are being read, each started by the one before it:
/// lines are read from the last.
pub struct Session {
    pub frames: Vec<Frame>,
    pub patterns: Patterns,
}

/// A session as plain mathematical values.
pub struct SessionView {
    pub frames: Seq<FrameView>,
}

/// What reading from the wanted trace file gave.
#[derive(Debug)]
pub enum Input {
    /// The next line, without its line end.
    Line(String),
    /// The file has no more lines.
    End,
}

/// What feeding a session gives: the summaries that are finished, and the
/// remarks on what was seen, each in order.
#[derive(Debug)]
pub struct Fed {
    pub finished: Vec<Summary>,
    pub notes: Vec<Note>,
}

/// A session together with the summaries that reaching it finished, in order.
pub struct Progress {
    pub session: SessionView,
    pub finished: Seq<SummaryView>,
}

impl View for Frame {
    type V = FrameView;

    open spec fn view(&self) -> FrameView {
        FrameView { state: self.analysis@, pending: actions_view(self.pending@) }
    }
}

impl View for Session {
    type V = SessionView;

    open spec fn view(&self) -> SessionView {
        SessionView { frames: self.frames@.map_values(|f: Frame| f@) }
    }
}

impl SessionView {
    /// The session that is about to read the first line of `trace`.
    pub open spec fn start(config: Config, trace: Seq<char>) -> SessionView {
        SessionView {
            frames: seq![
                FrameView { state: AnalysisView::start(config, trace), pending: Seq::empty() },
            ],
        }
    }

    /// Whether every trace file has been read to its end.
    pub open spec fn done(self) -> bool {
        self.frames.len() == 0
    }

    /// The trace file to read from next.
    pub open spec fn wants(self) -> Option<Seq<char>> {
        if self.done() {
            None
        } else {
            Some(self.frames.last().state.trace)
        }
    }

    /// How many actions the innermost trace file still asks for.
    pub open spec fn pending_len(self) -> nat {
        if self.done() {
            0
        } else {
            self.frames.last().pending.len()
        }
    }

    /// The session with `top` in place of its innermost frame.
    pub open spec fn with_top(self, top: FrameView) -> SessionView {
        SessionView { frames: self.frames.drop_last().push(top) }
    }

    /// Does what the innermost trace file still asks for, in order: hands
    /// out each finished summary, and at the first child process starts on
    /// the child's trace file and leaves the rest for when that has ended.
    pub open spec fn settle(self) -> Progress
        decreases self.pending_len(),
    {
        if self.done() || self.frames.last().pending.len() == 0 {
            Progress { session: self, finished: Seq::empty() }
        } else {
            let top = self.frames.last();
            let rest = self.with_top(FrameView { state: top.state, pending: top.pending.skip(1) });
            match top.pending[0] {
                ActionView::Emit(summary) => {
                    let after = rest.settle();
                    Progress { session: after.session, finished: seq![summary] + after.finished }
                },
                ActionView::Spawn(child) => Progress {
                    session: SessionView {
                        frames: rest.frames.push(
                            FrameView { state: child, pending: Seq::empty() },
                        ),
                    },
                    finished: Seq::empty(),
                },
            }
        }
    }

    /// The session after `line` was read from the wanted trace file, and the
    /// summaries that the line finished.
    pub open spec fn line(self, line: Seq<char>) -> Progress {
        if self.done() {
            Progress { session: self, finished: Seq::empty() }
        } else {
            let top = self.frames.last();
            let stepped = top.state.step(line);
            self.with_top(
                FrameView { state: stepped.state, pending: top.pending + stepped.actions },
            ).settle()
        }
    }

    /// The remarks on `line`, read from the wanted trace file.
    pub open spec fn line_notes(self, line: Seq<char>) -> Seq<NoteView> {
        if self.done() {
            Seq::empty()
        } else {
            self.frames.last().state.step_notes(line)
        }
    }

    /// The remarks on the end of the wanted trace file: one where it is the
    /// trace file of a child process.
    pub open spec fn end_notes(self) -> Seq<NoteView> {
        if self.frames.len() >= 2 {
            seq![NoteView::Traced { trace: self.frames.last().state.trace }]
        } else {
            Seq::empty()
        }
    }

    /// The session after the wanted trace file ended, and the summaries
    /// that this finished: those of the descriptors that were still open,
    /// in the ascending order of their numbers, then what the trace file
    /// that started this one was still asking for.
    pub open spec fn end(self) -> Progress {
        if self.done() {
            Progress { session: self, finished: Seq::empty() }
        } else {
            let after = (SessionView { frames: self.frames.drop_last() }).settle();
            Progress {
                session: after.session,
                finished: self.frames.last().state.residue_of() + after.finished,
            }
        }
    }
}

impl Session {
    /// Whether every trace file has been read to its end.
    pub fn done(&self) -> (r: bool)
        ensures
            r == self@.done(),
    {
        self.frames.len() == 0
    }

    /// How many trace files are being read, one inside the other.
    pub fn depth(&self) -> (r: usize)
        ensures
            r == self@.frames.len(),
    {
        self.frames.len()
    }

    /// The trace file to read from next, or `None` when the run is over.
    pub fn wants(&self) -> (r: Option<&str>)
        ensures
            match r {
                Some(trace) => self@.wants() == Some(trace@),
                None => self@.wants() is None,
            },
    {
        let n = self.frames.len();
        if n == 0 {
            None
        } else {
            Some(self.frames[n - 1].analysis.trace.as_str())
        }
    }

    /// Does what the innermost trace file still asks for, and adds the
    /// summaries that this finishes to `out`.
    fn settle(&mut self, out: &mut Vec<Summary>)
        ensures
            final(self)@ == old(self)@.settle().session,
            summaries_view(final(out)@) == summaries_view(old(out)@) + old(self)@.settle().finished,
        decreases old(self)@.pending_len(),
    {
        let ghost before = self@;
        let ghost given = summaries_view(out@);
        match self.frames.pop() {
            None => {
                assert(self@.frames =~= before.frames);
                assert(given + Seq::<SummaryView>::empty() =~= given);
            },
            Some(mut top) => {
                assert(before.frames.last() == top@);
                assert(self@.frames =~= before.frames.drop_last());
                if top.pending.len() == 0 {
                    self.frames.push(top);
                    assert(self@.frames =~= before.frames);
                    assert(given + Seq::<SummaryView>::empty() =~= given);
                } else {
                    let ghost pending = top@.pending;
                    let first = top.pending.remove(0);
                    assert(actions_view(top.pending@) =~= pending.skip(1));
                    assert(first@ == pending[0]);
                    self.frames.push(top);
                    let ghost rest = before.with_top(
                        FrameView { state: top@.state, pending: pending.skip(1) },
                    );
                    assert(self@.frames =~= rest.frames);
                    match first {
                        Action::Emit(summary) => {
                            out.push(summary);
                            assert(summaries_view(out@) =~= given + seq![summary@]);
                            self.settle(out);
                            assert((given + seq![summary@]) + rest.settle().finished =~= given + (
                            seq![summary@] + rest.settle().finished));
                        },
                        Action::Spawn(child) => {
                            let fresh: Vec<Action> = Vec::new();
                            assert(actions_view(fresh@) =~= Seq::empty());
                            self.frames.push(Frame { analysis: child, pending: fresh });
                            assert(self@.frames =~= rest.frames.push(
                                FrameView { state: child@, pending: Seq::empty() },
                            ));
                            assert(given + Seq::<SummaryView>::empty() =~= given);
                        },
                    }
                }
            },
        }
    }

    /// Takes in what reading from the wanted trace file gave. Returns the
    /// summaries that are finished by it, in the order in which they are to
    /// be handed out, and the remarks on it. At the end of a trace file the
    /// summaries begin with those of its open descriptors, in the ascending
    /// order of their numbers. Once the run is over nothing changes any more.
    pub fn feed(&mut self, input: Input) -> (r: Fed)
        ensures
            match input {
                Input::Line(line) => {
                    &&& final(self)@ == old(self)@.line(line@).session
                    &&& summaries_view(r.finished@) == old(self)@.line(line@).finished
                    &&& notes_view(r.notes@) == old(self)@.line_notes(line@)
                },
                Input::End => {
                    &&& final(self)@ == old(self)@.end().session
                    &&& summaries_view(r.finished@) == old(self)@.end().finished
                    &&& notes_view(r.notes@) == old(self)@.end_notes()
                },
            },
            old(self)@.done() ==> final(self)@ == old(self)@ && r.finished@.len() == 0
                && r.notes@.len() == 0,
    {
        let ghost before = self@;
        let mut out: Vec<Summary> = Vec::new();
        let mut notes: Vec<Note> = Vec::new();
        assert(summaries_view(out@) =~= Seq::empty());
        assert(notes_view(notes@) =~= Seq::empty());
        match self.frames.pop() {
            None => {
                assert(self@.frames =~= before.frames);
            },
            Some(mut top) => {
                assert(before.frames.last() == top@);
                assert(self@.frames =~= before.frames.drop_last());
                match input {
                    Input::Line(line) => {
                        let ghost pending = top@.pending;
                        let ghost stepped = top@.state.step(line@);
                        let taken = top.analysis.step(&self.patterns, line.as_str());
                        let mut actions = taken.actions;
                        notes = taken.notes;
                        let ghost added = actions_view(actions@);
                        top.pending.append(&mut actions);
                        assert(actions_view(top.pending@) =~= pending + added);
                        self.frames.push(top);
                        assert(self@.frames =~= before.with_top(
                            FrameView { state: stepped.state, pending: pending + stepped.actions },
                        ).frames);
                        self.settle(&mut out);
                        assert(Seq::<SummaryView>::empty() + before.line(line@).finished
                            =~= before.line(line@).finished);
                    },
                    Input::End => {
                        if self.frames.len() > 0 {
                            let note = Note::Traced { trace: top.analysis.trace.clone() };
                            notes.push(note);
                            assert(notes_view(notes@) =~= seq![note@]);
                        }
                        out = top.analysis.residue();
                        self.settle(&mut out);
                    },
                }
            },
        }
        Fed { finished: out, notes }
    }
}

/// Starts a run on the trace file `input`: compiles the patterns, and
/// returns the session that wants the first line of `input`. Fails where a
/// pattern is refused, at the first such.
pub fn run(input: &str, config: Config) -> (r: Result<Session, PatternError>)
    ensures
        match r {
            Ok(session) => {
                &&& session@ == SessionView::start(config, input@)
                &&& forall|i: int|
                    0 <= i < Shape::count() ==> compiled(
                        #[trigger] Shape::at(i).pattern_text(),
                    ) is Ok
            },
            Err(e) => compiled(e.shape.pattern_text()) is Err && forall|i: int|
                0 <= i < e.shape.position() ==> compiled(
                    #[trigger] Shape::at(i).pattern_text(),
                ) is Ok,
        },
{
    match Patterns::new() {
        Ok(patterns) => {
            let mut frames: Vec<Frame> = Vec::new();
            let pending: Vec<Action> = Vec::new();
            assert(actions_view(pending@) =~= Seq::empty());
            frames.push(Frame { analysis: Analysis::on(input, config), pending });
            let session = Session { frames, patterns };
            assert(session@.frames =~= SessionView::start(config, input@).frames);
            Ok(session)
        },
        Err(e) => Err(e),
    }
}

} // verus!
