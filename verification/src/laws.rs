//! What holds of the engine for every trace.

use vstd::prelude::*;
use crate::analysis::{with_extension, ActionView, AnalysisView, Outcome};
use crate::summary::{
    count_of, is_largest, lemma_largest_unique, lemma_total_ops_insert,
    lemma_total_ops_remove, tally_of, total_ops, SummaryView, Tally,
};
use crate::session::{FrameView, SessionView};
use crate::syscall::EventView;
use crate::text::all_digits;

verus! {

/// One read or write: the size that was asked for and the bytes that moved.
pub enum Io {
    Read { op_size: u64, bytes: u64 },
    Write { op_size: u64, bytes: u64 },
}

impl Io {
    /// The event that records this operation on `fd`.
    pub open spec fn on(self, fd: u32) -> EventView {
        match self {
            Io::Read { op_size, bytes } => EventView::Read { fd, op_size, bytes },
            Io::Write { op_size, bytes } => EventView::Write { fd, op_size, bytes },
        }
    }

    /// Whether the counters of `s` have room for this operation.
    pub open spec fn fits(self, s: SummaryView) -> bool {
        match self {
            Io::Read { op_size, bytes } => s.read_fits(op_size, bytes),
            Io::Write { op_size, bytes } => s.write_fits(op_size, bytes),
        }
    }

    /// The summary `s` after this operation.
    pub open spec fn record(self, s: SummaryView) -> SummaryView {
        match self {
            Io::Read { op_size, bytes } => s.record_read(op_size, bytes),
            Io::Write { op_size, bytes } => s.record_write(op_size, bytes),
        }
    }
}

/// The events that record the operations `ops` on `fd`, in order.
pub open spec fn io_on(fd: u32, ops: Seq<Io>) -> Seq<EventView> {
    ops.map_values(|op: Io| op.on(fd))
}

/// The summary `s` after the operations `ops`, in order.
pub open spec fn record_all(s: SummaryView, ops: Seq<Io>) -> SummaryView
    decreases ops.len(),
{
    if ops.len() == 0 {
        s
    } else {
        ops.last().record(record_all(s, ops.drop_last()))
    }
}

/// Whether the counters of `s` have room for each of `ops` in its turn.
pub open spec fn fits_all(s: SummaryView, ops: Seq<Io>) -> bool
    decreases ops.len(),
{
    if ops.len() == 0 {
        true
    } else {
        fits_all(s, ops.drop_last()) && ops.last().fits(record_all(s, ops.drop_last()))
    }
}

/// The reads `reads`, each a pair of the size asked for and the bytes returned.
pub open spec fn reads_of(reads: Seq<(u64, u64)>) -> Seq<Io> {
    reads.map_values(|r: (u64, u64)| Io::Read { op_size: r.0, bytes: r.1 })
}

/// The bytes that `reads` returned in all.
pub open spec fn bytes_returned(reads: Seq<(u64, u64)>) -> nat
    decreases reads.len(),
{
    if reads.len() == 0 {
        0
    } else {
        bytes_returned(reads.drop_last()) + reads.last().1 as nat
    }
}

/// The largest size that one of `reads` asked for; 0 where there are none.
pub open spec fn largest_request(reads: Seq<(u64, u64)>) -> u64
    decreases reads.len(),
{
    if reads.len() == 0 {
        0
    } else if largest_request(reads.drop_last()) >= reads.last().0 {
        largest_request(reads.drop_last())
    } else {
        reads.last().0
    }
}

/// Events taken in one after the other are taken in as one sequence: the
/// state is that after the second part, and the actions are those of the
/// first part followed by those of the second.
pub proof fn lemma_apply_all_concat(state: AnalysisView, first: Seq<EventView>, second: Seq<EventView>)
    ensures
        state.apply_all(first + second) == (Outcome {
            state: state.apply_all(first).state.apply_all(second).state,
            actions: state.apply_all(first).actions + state.apply_all(first).state.apply_all(
                second,
            ).actions,
        }),
    decreases second.len(),
{
    let mid = state.apply_all(first);
    if second.len() == 0 {
        assert(first + second =~= first);
        assert(mid.actions + Seq::<ActionView>::empty() =~= mid.actions);
    } else {
        let all = first + second;
        assert(all.drop_last() =~= first + second.drop_last());
        assert(all.last() == second.last());
        lemma_apply_all_concat(state, first, second.drop_last());
        let before = mid.state.apply_all(second.drop_last());
        let last = before.state.apply(second.last());
        assert(mid.actions + (before.actions + last.actions) =~= (mid.actions + before.actions)
            + last.actions);
    }
}

/// One event taken in alone is that event applied.
pub proof fn lemma_apply_all_one(state: AnalysisView, event: EventView)
    ensures
        state.apply_all(seq![event]) == state.apply(event),
{
    let one = seq![event];
    assert(one.drop_last() =~= Seq::<EventView>::empty());
    assert(one.last() == event);
    assert(state.apply_all(one.drop_last()).state == state);
    assert(state.apply_all(one.drop_last()).actions == Seq::<ActionView>::empty());
    let out = state.apply(event);
    assert(Seq::<ActionView>::empty() + out.actions =~= out.actions);
}

/// I/O on an open descriptor changes the summary of that descriptor and
/// nothing else, and asks nothing of the caller.
pub proof fn lemma_io_on_open_descriptor(state: AnalysisView, fd: u32, ops: Seq<Io>)
    requires
        state.fds.contains_key(fd),
        fits_all(state.fds[fd], ops),
    ensures
        state.apply_all(io_on(fd, ops)) == (Outcome {
            state: state.insert(fd, record_all(state.fds[fd], ops)),
            actions: Seq::empty(),
        }),
    decreases ops.len(),
{
    let events = io_on(fd, ops);
    if ops.len() == 0 {
        assert(state.insert(fd, state.fds[fd]).fds =~= state.fds);
    } else {
        lemma_io_on_open_descriptor(state, fd, ops.drop_last());
        assert(events.drop_last() =~= io_on(fd, ops.drop_last()));
        assert(events.last() == ops.last().on(fd));
        let before = state.insert(fd, record_all(state.fds[fd], ops.drop_last()));
        let after = before.apply(ops.last().on(fd));
        assert(after.state.fds =~= state.insert(fd, record_all(state.fds[fd], ops)).fds);
        assert(Seq::<ActionView>::empty() + after.actions =~= Seq::<ActionView>::empty());
    }
}

/// No size has been seen more often than all sizes together.
pub proof fn lemma_count_within_total(freq: Map<u64, u64>, op_size: u64)
    requires
        freq.dom().finite(),
    ensures
        count_of(freq, op_size) <= total_ops(freq),
{
    if freq.contains_key(op_size) {
        lemma_total_ops_remove(freq, op_size);
    }
}

/// The largest request of some reads is the request of one of them, and no
/// read asked for more.
pub proof fn lemma_largest_request(reads: Seq<(u64, u64)>)
    requires
        reads.len() > 0,
    ensures
        exists|i: int| 0 <= i < reads.len() && (#[trigger] reads[i]).0 == largest_request(reads),
        forall|i: int| 0 <= i < reads.len() ==> (#[trigger] reads[i]).0 <= largest_request(reads),
    decreases reads.len(),
{
    let before = reads.drop_last();
    if before.len() == 0 {
        assert(largest_request(before) == 0);
        assert(reads[reads.len() - 1].0 == largest_request(reads));
    } else {
        lemma_largest_request(before);
        let w = choose|i: int| 0 <= i < before.len() && (#[trigger] before[i]).0 == largest_request(before);
        assert(before[w] == reads[w]);
        if largest_request(before) >= reads.last().0 {
            assert(reads[w].0 == largest_request(reads));
        } else {
            assert(reads[reads.len() - 1].0 == largest_request(reads));
        }
        assert forall|i: int| 0 <= i < reads.len() implies (#[trigger] reads[i]).0 <= largest_request(
            reads,
        ) by {
            if i < before.len() {
                assert(before[i] == reads[i]);
            }
        }
    }
}

/// What some reads leave in a summary whose counters have room for them:
/// each is counted, the bytes they returned are added up, and the sizes they
/// asked for are the new keys of the histogram. Writes are not touched.
pub proof fn lemma_reads_recorded(s: SummaryView, reads: Seq<(u64, u64)>)
    requires
        s.read_freq.dom().finite(),
        total_ops(s.read_freq) + reads.len() <= u64::MAX,
        s.read_bytes + bytes_returned(reads) <= u64::MAX,
    ensures
        fits_all(s, reads_of(reads)),
        ({
            let r = record_all(s, reads_of(reads));
            &&& r.file == s.file
            &&& r.write_freq == s.write_freq
            &&& r.write_bytes == s.write_bytes
            &&& r.read_bytes == s.read_bytes + bytes_returned(reads)
            &&& r.read_freq.dom().finite()
            &&& total_ops(r.read_freq) == total_ops(s.read_freq) + reads.len()
            &&& forall|k: u64|
                r.read_freq.contains_key(k) <==> (s.read_freq.contains_key(k) || exists|i: int|
                    0 <= i < reads.len() && (#[trigger] reads[i]).0 == k)
        }),
    decreases reads.len(),
{
    let ops = reads_of(reads);
    if reads.len() == 0 {
    } else {
        let before = reads.drop_last();
        lemma_reads_recorded(s, before);
        assert(ops.drop_last() =~= reads_of(before));
        assert(ops.last() == Io::Read { op_size: reads.last().0, bytes: reads.last().1 });
        let prev = record_all(s, reads_of(before));
        let r = record_all(s, ops);
        let op_size = reads.last().0;
        lemma_count_within_total(prev.read_freq, op_size);
        let count = count_of(prev.read_freq, op_size);
        lemma_total_ops_insert(prev.read_freq, op_size, (count + 1) as u64);
        assert(r.read_freq == prev.read_freq.insert(op_size, (count + 1) as u64));
        assert forall|k: u64|
            r.read_freq.contains_key(k) <==> (s.read_freq.contains_key(k) || exists|i: int|
                0 <= i < reads.len() && (#[trigger] reads[i]).0 == k) by {
            if r.read_freq.contains_key(k) {
                if k == op_size {
                    assert(reads[reads.len() - 1].0 == k);
                } else if !s.read_freq.contains_key(k) {
                    let w = choose|i: int| 0 <= i < before.len() && (#[trigger] before[i]).0 == k;
                    assert(reads[w].0 == k);
                }
            }
            if exists|i: int| 0 <= i < reads.len() && (#[trigger] reads[i]).0 == k {
                let w = choose|i: int| 0 <= i < reads.len() && (#[trigger] reads[i]).0 == k;
                if w < before.len() {
                    assert(before[w].0 == k);
                }
            }
        }
    }
}

/// A file that is opened, read some times and closed gives one summary: it
/// names the file, counts as many read operations as there were reads, holds
/// as read bytes the sum of the bytes that the reads returned, and reports as
/// the size per operation the largest size that a read asked for. The
/// number of reads and the sum of the bytes are taken to fit in 64 bits.
pub proof fn law_open_read_close(
    start: AnalysisView,
    file: Seq<char>,
    fd: u32,
    reads: Seq<(u64, u64)>,
    error: Seq<char>,
)
    requires
        reads.len() <= u64::MAX,
        bytes_returned(reads) <= u64::MAX,
    ensures
        ({
            let events = seq![EventView::Open { file, fd }] + io_on(fd, reads_of(reads))
                + seq![EventView::Close { fd, status: 0, error }];
            let end = start.apply_all(events);
            let s = record_all(SummaryView::fresh(file), reads_of(reads));
            &&& end.actions == start.dropped(fd) + seq![ActionView::Emit(s)]
            &&& end.state == start.remove(fd)
            &&& s.file == file
            &&& total_ops(s.read_freq) == reads.len()
            &&& s.read_bytes == bytes_returned(reads)
            &&& s.write_freq == Map::<u64, u64>::empty()
            &&& s.write_bytes == 0
            &&& reads.len() > 0 ==> is_largest(s.read_freq, largest_request(reads))
            &&& tally_of(s.read_freq, s.read_bytes) == if reads.len() == 0 {
                None
            } else {
                Some(
                    Tally {
                        bytes: bytes_returned(reads) as u64,
                        ops: reads.len() as u128,
                        op_size: largest_request(reads),
                    },
                )
            }
        }),
{
    let open = seq![EventView::Open { file, fd }];
    let io = io_on(fd, reads_of(reads));
    let close = seq![EventView::Close { fd, status: 0, error }];
    let fresh = SummaryView::fresh(file);
    let s = record_all(fresh, reads_of(reads));
    assert(total_ops(fresh.read_freq) == 0);
    lemma_reads_recorded(fresh, reads);
    lemma_apply_all_one(start, open[0]);
    let opened = start.apply(open[0]);
    lemma_io_on_open_descriptor(opened.state, fd, reads_of(reads));
    let read = opened.state.apply_all(io);
    lemma_apply_all_one(read.state, close[0]);
    let closed = read.state.apply(close[0]);
    lemma_apply_all_concat(start, open, io);
    lemma_apply_all_concat(start, open + io, close);
    assert(closed.state.fds =~= start.remove(fd).fds);
    assert((opened.actions + read.actions) + closed.actions =~= start.dropped(fd)
        + seq![ActionView::Emit(s)]);
    if reads.len() > 0 {
        lemma_largest_request(reads);
        let w = choose|i: int|
            0 <= i < reads.len() && (#[trigger] reads[i]).0 == largest_request(reads);
        assert(s.read_freq.contains_key(reads[w].0));
        assert forall|j: u64| s.read_freq.contains_key(j) implies j <= largest_request(reads) by {
            let i = choose|i: int| 0 <= i < reads.len() && (#[trigger] reads[i]).0 == j;
            assert(reads[i].0 <= largest_request(reads));
        }
        lemma_largest_unique(s.read_freq, largest_request(reads));
        assert(s.read_freq.dom().contains(largest_request(reads)));
        assert(s.read_freq.dom().len() > 0);
    } else {
        assert(s.read_freq.dom() =~= Set::<u64>::empty());
    }
}

/// I/O changes the counters of a summary, never its name.
pub proof fn lemma_record_all_keeps_name(s: SummaryView, ops: Seq<Io>)
    ensures
        record_all(s, ops).file == s.file,
    decreases ops.len(),
{
    if ops.len() > 0 {
        lemma_record_all_keeps_name(s, ops.drop_last());
    }
}

/// A descriptor that is duplicated, by `dup`, `dup2` or `fcntl`, onto a
/// number that was not open, and I/O on the new number alone: the summary of
/// the new number names the resource of the old one and holds that I/O and
/// nothing from before; the summary of the old number is as it was, and
/// nothing is handed out. The counters are taken to have room for the I/O.
pub proof fn law_dup_starts_afresh(start: AnalysisView, oldfd: u32, newfd: u32, ops: Seq<Io>)
    requires
        start.fds.contains_key(oldfd),
        !start.fds.contains_key(newfd),
        fits_all(SummaryView::fresh(start.fds[oldfd].file), ops),
    ensures
        ({
            let events = seq![EventView::Dup { oldfd, newfd }] + io_on(newfd, ops);
            let end = start.apply_all(events);
            let copy = record_all(SummaryView::fresh(start.fds[oldfd].file), ops);
            &&& end.actions == Seq::<ActionView>::empty()
            &&& end.state == start.insert(newfd, copy)
            &&& end.state.fds[newfd] == copy
            &&& copy.file == start.fds[oldfd].file
            &&& end.state.fds[oldfd] == start.fds[oldfd]
        }),
{
    let dup = seq![EventView::Dup { oldfd, newfd }];
    let fresh = SummaryView::fresh(start.fds[oldfd].file);
    lemma_apply_all_one(start, dup[0]);
    let made = start.apply(dup[0]);
    lemma_io_on_open_descriptor(made.state, newfd, ops);
    lemma_apply_all_concat(start, dup, io_on(newfd, ops));
    lemma_record_all_keeps_name(fresh, ops);
    let copy = record_all(fresh, ops);
    assert(made.state.insert(newfd, copy).fds =~= start.insert(newfd, copy).fds);
    assert(made.actions + Seq::<ActionView>::empty() =~= Seq::<ActionView>::empty());
}

/// A `close` that returns 0 on an open descriptor hands out the summary of
/// that descriptor, once, and leaves the number free: an `open` that gives
/// the same number next takes it over without handing anything out.
pub proof fn law_close_frees_descriptor(
    start: AnalysisView,
    fd: u32,
    error: Seq<char>,
    file: Seq<char>,
)
    requires
        start.fds.contains_key(fd),
    ensures
        ({
            let closed = start.apply(EventView::Close { fd, status: 0, error });
            let reopened = closed.state.apply(EventView::Open { file, fd });
            &&& closed.actions == seq![ActionView::Emit(start.fds[fd])]
            &&& closed.state == start.remove(fd)
            &&& !closed.state.fds.contains_key(fd)
            &&& reopened.actions == Seq::<ActionView>::empty()
            &&& reopened.state.fds[fd] == SummaryView::fresh(file)
        }),
{
}

/// An `open` on a number that is still open hands out the summary that the
/// number stood for, once, before the number stands for the new file.
pub proof fn law_open_takes_over(start: AnalysisView, fd: u32, file: Seq<char>)
    requires
        start.fds.contains_key(fd),
    ensures
        ({
            let opened = start.apply(EventView::Open { file, fd });
            &&& opened.actions == seq![ActionView::Emit(start.fds[fd])]
            &&& opened.state.fds[fd] == SummaryView::fresh(file)
        }),
{
}

/// A `clone` leaves the table as it is and asks for the analysis of the
/// child's trace file from a copy of the table: every descriptor is open in
/// the child on the same resource, with nothing recorded.
pub proof fn law_clone_hands_down_the_table(
    start: AnalysisView,
    pid: Seq<char>,
    trace: Seq<char>,
)
    requires
        pid.len() > 0,
        all_digits(pid),
        with_extension(start.trace, pid) == Some(trace),
    ensures
        ({
            let cloned = start.apply(EventView::Clone { pid });
            let child = start.child(trace);
            &&& cloned.state == start
            &&& cloned.actions == seq![ActionView::Spawn(child)]
            &&& child.trace == trace
            &&& child.config == start.config
            &&& child.fds.dom() == start.fds.dom()
            &&& forall|fd: u32| #[trigger]
                start.fds.contains_key(fd) ==> child.fds[fd] == SummaryView::fresh(
                    start.fds[fd].file,
                )
        }),
{
    assert(start.child(trace).fds.dom() =~= start.fds.dom());
}

/// Doing what the innermost trace file asks for never touches the trace
/// files around it, and never ends a trace file.
pub proof fn lemma_settle_keeps_outer_frames(s: SessionView)
    requires
        !s.done(),
    ensures
        s.settle().session.frames.len() >= s.frames.len(),
        s.settle().session.frames.take(s.frames.len() - 1) == s.frames.take(s.frames.len() - 1),
    decreases s.pending_len(),
{
    let n = s.frames.len();
    if s.frames.last().pending.len() == 0 {
    } else {
        let top = s.frames.last();
        let rest = s.with_top(FrameView { state: top.state, pending: top.pending.skip(1) });
        assert(rest.frames.take(n - 1) =~= s.frames.take(n - 1));
        match top.pending[0] {
            ActionView::Emit(summary) => {
                lemma_settle_keeps_outer_frames(rest);
            },
            ActionView::Spawn(child) => {
                let pushed = rest.frames.push(FrameView { state: child, pending: Seq::empty() });
                assert(pushed.take(n - 1) =~= s.frames.take(n - 1));
            },
        }
    }
}

/// While the trace file of a child process is read, the trace files around
/// it stay as they are: whatever a line of the child finishes, nothing of
/// its parent is handed out or changed before the child's trace file ends.
pub proof fn law_lines_leave_outer_frames(s: SessionView, line: Seq<char>)
    requires
        !s.done(),
    ensures
        s.line(line).session.frames.len() >= s.frames.len(),
        s.line(line).session.frames.take(s.frames.len() - 1) == s.frames.take(
            s.frames.len() - 1,
        ),
{
    let top = s.frames.last();
    let stepped = top.state.step(line);
    let next = s.with_top(FrameView { state: stepped.state, pending: top.pending + stepped.actions });
    assert(next.frames.take(s.frames.len() - 1) =~= s.frames.take(s.frames.len() - 1));
    lemma_settle_keeps_outer_frames(next);
}

/// A line whose first action starts a child process finishes nothing: the
/// child's trace file is wanted next, from the state that the line handed
/// down, and what else the line asks for waits in the parent.
pub proof fn law_clone_starts_child_at_once(s: SessionView, line: Seq<char>, child: AnalysisView)
    requires
        !s.done(),
        s.frames.last().pending.len() == 0,
        s.frames.last().state.step(line).actions.len() > 0,
        s.frames.last().state.step(line).actions[0] == ActionView::Spawn(child),
    ensures
        ({
            let stepped = s.frames.last().state.step(line);
            let after = s.line(line);
            &&& after.finished == Seq::<SummaryView>::empty()
            &&& after.session.frames == s.frames.drop_last().push(
                FrameView { state: stepped.state, pending: stepped.actions.skip(1) },
            ).push(FrameView { state: child, pending: Seq::empty() })
            &&& after.session.wants() == Some(child.trace)
        }),
{
    let top = s.frames.last();
    let stepped = top.state.step(line);
    assert(top.pending + stepped.actions =~= stepped.actions);
    let next = s.with_top(FrameView { state: stepped.state, pending: stepped.actions });
    let rest = next.with_top(FrameView { state: stepped.state, pending: stepped.actions.skip(1) });
    assert(rest.frames =~= s.frames.drop_last().push(
        FrameView { state: stepped.state, pending: stepped.actions.skip(1) },
    ));
}

/// When the trace file of a child process ends, the summaries of the
/// child's open descriptors are handed out before anything of its parent,
/// and the parent goes on from the state in which it started the child.
pub proof fn law_child_ends_before_parent_goes_on(s: SessionView)
    requires
        s.frames.len() >= 2,
    ensures
        ({
            let n = s.frames.len();
            let child = s.frames[n - 1];
            let parent = s.frames[n - 2];
            let after = s.end();
            let resumed = (SessionView { frames: s.frames.drop_last() }).settle();
            &&& after.finished == child.state.residue_of() + resumed.finished
            &&& after.session == resumed.session
            &&& after.session.frames.len() >= n - 1
            &&& after.session.frames.take(n - 2) == s.frames.take(n - 2)
            &&& after.session.frames[n - 2].state == parent.state
        }),
{
    let n = s.frames.len();
    let lower = SessionView { frames: s.frames.drop_last() };
    lemma_settle_keeps_outer_frames(lower);
    lemma_settle_keeps_state(lower);
    assert(lower.frames.take(n - 2) =~= s.frames.take(n - 2));
}

/// Doing what the innermost trace file asks for leaves the table of that
/// trace file as it is.
pub proof fn lemma_settle_keeps_state(s: SessionView)
    requires
        !s.done(),
    ensures
        s.settle().session.frames.len() >= s.frames.len(),
        s.settle().session.frames[s.frames.len() - 1].state == s.frames.last().state,
    decreases s.pending_len(),
{
    if s.frames.last().pending.len() > 0 {
        let top = s.frames.last();
        let rest = s.with_top(FrameView { state: top.state, pending: top.pending.skip(1) });
        match top.pending[0] {
            ActionView::Emit(summary) => {
                lemma_settle_keeps_state(rest);
            },
            ActionView::Spawn(child) => {},
        }
    }
}

/// What is handed out at the end of a trace file is settled by the table:
/// the summaries of the open descriptors, in the ascending order of their
/// numbers, can be listed in one way only.
pub proof fn law_residue_is_settled(
    state: AnalysisView,
    first: Seq<SummaryView>,
    second: Seq<SummaryView>,
)
    requires
        state.residue(first),
        state.residue(second),
    ensures
        first == second,
        first == state.residue_of(),
{
    state.lemma_residue_unique(first, second);
    state.lemma_residue_unique(first, state.residue_of());
}

/// Two runs that are in the same state and read the same line, or both find
/// the end of the trace file, hand out the same summaries in the same
/// order, make the same remarks, and are in the same state after it.
pub proof fn law_same_input_same_output(one: SessionView, other: SessionView, line: Seq<char>)
    requires
        one == other,
    ensures
        one.line(line) == other.line(line),
        one.line_notes(line) == other.line_notes(line),
        one.end() == other.end(),
        one.end_notes() == other.end_notes(),
{
}

} // verus!
