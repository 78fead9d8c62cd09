//! The running statistics of one resource.

use std::collections::HashMap;
use vstd::prelude::*;
use vstd::std_specs::hash::*;
use vstd::std_specs::iter::IteratorSpec;
use vstd::string::StringExecFns;
use crate::config::Config;
use crate::text::{begins_with, chars_of, same_chars};

verus! {

broadcast use vstd::std_specs::hash::group_hash_axioms;

/// What a descriptor did to one resource: for reads and for writes, how many
/// operations of each size there were and how many bytes moved in all.
#[derive(Debug)]
pub struct Summary {
    pub file: String,
    pub read_freq: HashMap<u64, u64>,
    pub write_freq: HashMap<u64, u64>,
    pub read_bytes: u64,
    pub write_bytes: u64,
}

/// A summary as plain mathematical values.
pub struct SummaryView {
    pub file: Seq<char>,
    pub read_freq: Map<u64, u64>,
    pub write_freq: Map<u64, u64>,
    pub read_bytes: u64,
    pub write_bytes: u64,
}

/// How many operations of size `op_size` the histogram `freq` has seen.
pub open spec fn count_of(freq: Map<u64, u64>, op_size: u64) -> u64 {
    if freq.contains_key(op_size) {
        freq[op_size]
    } else {
        0
    }
}

/// The sum of all the counts in the histogram `freq`: how many operations it has seen.
pub open spec fn total_ops(freq: Map<u64, u64>) -> nat
    decreases freq.dom().len(),
{
    if freq.dom().finite() && freq.dom().len() > 0 {
        let k = freq.dom().choose();
        freq[k] as nat + total_ops(freq.remove(k))
    } else {
        0
    }
}

/// `op_size` is the largest operation size that the histogram `freq` has seen.
pub open spec fn is_largest(freq: Map<u64, u64>, op_size: u64) -> bool {
    freq.contains_key(op_size) && forall|j: u64| freq.contains_key(j) ==> j <= op_size
}

/// The largest operation size in a histogram that is not empty.
pub open spec fn largest_op(freq: Map<u64, u64>) -> u64 {
    choose|k: u64| is_largest(freq, k)
}

/// The figures reported for one direction of I/O on one resource.
#[derive(Clone, Copy, Debug, PartialEq, Eq, Structural)]
pub struct Tally {
    /// The bytes moved in all.
    pub bytes: u64,
    /// The number of operations.
    pub ops: u128,
    /// The largest size that an operation asked for.
    pub op_size: u64,
}

/// What is reported of a direction with histogram `freq` and byte total
/// `bytes`: nothing where no operation was seen.
pub open spec fn tally_of(freq: Map<u64, u64>, bytes: u64) -> Option<Tally> {
    if freq.dom().len() == 0 {
        None
    } else {
        Some(Tally { bytes, ops: total_ops(freq) as u128, op_size: largest_op(freq) })
    }
}

/// Any key may be counted first: the total is its count plus the total of the rest.
pub proof fn lemma_total_ops_remove(freq: Map<u64, u64>, k: u64)
    requires
        freq.dom().finite(),
        freq.contains_key(k),
    ensures
        total_ops(freq) == freq[k] + total_ops(freq.remove(k)),
    decreases freq.dom().len(),
{
    let c = freq.dom().choose();
    if c != k {
        lemma_total_ops_remove(freq.remove(c), k);
        lemma_total_ops_remove(freq.remove(k), c);
        assert(freq.remove(c).remove(k) =~= freq.remove(k).remove(c));
    }
}

/// Setting the count of `op_size` to `count` changes the total by the difference.
pub proof fn lemma_total_ops_insert(freq: Map<u64, u64>, op_size: u64, count: u64)
    requires
        freq.dom().finite(),
    ensures
        total_ops(freq.insert(op_size, count)) + count_of(freq, op_size) == total_ops(freq) + count,
{
    let after = freq.insert(op_size, count);
    lemma_total_ops_remove(after, op_size);
    assert(after.remove(op_size) =~= freq.remove(op_size));
    if freq.contains_key(op_size) {
        lemma_total_ops_remove(freq, op_size);
    } else {
        assert(freq.remove(op_size) =~= freq);
    }
}

/// A histogram has at most one largest operation size.
pub proof fn lemma_largest_unique(freq: Map<u64, u64>, k: u64)
    requires
        is_largest(freq, k),
    ensures
        largest_op(freq) == k,
{
    let c = largest_op(freq);
    assert(is_largest(freq, c));
}

/// Whether `file` names a resource that is left out of a report unless all
/// are asked for: a standard stream, a pipe, a socket, a duplicate of an
/// unknown descriptor, or a path under one of the system directories.
pub open spec fn is_noise(file: Seq<char>) -> bool {
    ||| "/bin/"@.is_prefix_of(file)
    ||| file == "/dev/null"@
    ||| "/etc/"@.is_prefix_of(file)
    ||| "/lib/"@.is_prefix_of(file)
    ||| "/lib64/"@.is_prefix_of(file)
    ||| "/opt/"@.is_prefix_of(file)
    ||| "/proc/"@.is_prefix_of(file)
    ||| "/run/"@.is_prefix_of(file)
    ||| "/sbin/"@.is_prefix_of(file)
    ||| "/sys/"@.is_prefix_of(file)
    ||| "/tmp/"@.is_prefix_of(file)
    ||| "/usr/"@.is_prefix_of(file)
    ||| file == "STDOUT"@
    ||| file == "STDERR"@
    ||| file == "STDIN"@
    ||| file == "SOCKET"@
    ||| file == "DUP"@
    ||| file == "PIPE"@
}

/// What is said of one summary when it is finished.
#[derive(Clone, Copy, Debug, PartialEq, Eq, Structural)]
pub enum Report {
    /// The resource is left out of the report.
    Hidden,
    /// The resource is shown, but no I/O was seen on it.
    Idle,
    /// The figures of its reads and of its writes, each where there were any.
    Lines { read: Option<Tally>, write: Option<Tally> },
}

/// One line of a table: the figures of one direction of I/O on one resource.
#[derive(Debug)]
pub struct Row {
    pub ops: u128,
    pub bytes: u64,
    pub op_size: u64,
    pub file: String,
}

/// A table line as plain mathematical values.
pub struct RowView {
    pub ops: u128,
    pub bytes: u64,
    pub op_size: u64,
    pub file: Seq<char>,
}

impl View for Row {
    type V = RowView;

    open spec fn view(&self) -> RowView {
        RowView { ops: self.ops, bytes: self.bytes, op_size: self.op_size, file: self.file@ }
    }
}

/// The two tables of a report: one line per resource that was read, and one
/// per resource that was written.
#[derive(Debug)]
pub struct Tables {
    pub reads: Vec<Row>,
    pub writes: Vec<Row>,
}

/// The views of the lines of a table, in order.
pub open spec fn rows_view(rows: Seq<Row>) -> Seq<RowView> {
    rows.map_values(|r: Row| r@)
}

/// The views of some summaries, in order.
pub open spec fn summaries_view(summaries: Seq<Summary>) -> Seq<SummaryView> {
    summaries.map_values(|s: Summary| s@)
}

/// The table line for figures `t` of the resource `file`.
pub open spec fn row_of(file: Seq<char>, t: Tally) -> RowView {
    RowView { ops: t.ops, bytes: t.bytes, op_size: t.op_size, file }
}

/// The lines of the table of reads for `summaries`: in their order, one for
/// each that is shown and was read.
pub open spec fn read_rows(summaries: Seq<SummaryView>, config: Config) -> Seq<RowView>
    decreases summaries.len(),
{
    if summaries.len() == 0 {
        Seq::empty()
    } else {
        let s = summaries.last();
        let before = read_rows(summaries.drop_last(), config);
        match tally_of(s.read_freq, s.read_bytes) {
            Some(t) if s.should_show(config) => before.push(row_of(s.file, t)),
            _ => before,
        }
    }
}

/// The lines of the table of writes for `summaries`: in their order, one for
/// each that is shown and was written.
pub open spec fn write_rows(summaries: Seq<SummaryView>, config: Config) -> Seq<RowView>
    decreases summaries.len(),
{
    if summaries.len() == 0 {
        Seq::empty()
    } else {
        let s = summaries.last();
        let before = write_rows(summaries.drop_last(), config);
        match tally_of(s.write_freq, s.write_bytes) {
            Some(t) if s.should_show(config) => before.push(row_of(s.file, t)),
            _ => before,
        }
    }
}

/// What `str::replace` returns: `s` with the matches of `from` replaced by `to`.
pub uninterp spec fn replaced(s: Seq<char>, from: Seq<char>, to: Seq<char>) -> Seq<char>;

/// What `str::to_uppercase` returns for a string.
pub uninterp spec fn uppercase(s: Seq<char>) -> Seq<char>;

/// The short form of a size that is written with binary units: without the
/// letters "iB" and without spaces, in upper case.
pub open spec fn short_form(text: Seq<char>) -> Seq<char> {
    uppercase(replaced(replaced(text, "iB"@, ""@), " "@, ""@))
}

/// Calls `bytesize::ByteSize::to_string_as` with binary units. The crate
/// works the text out in floating point, so nothing is claimed of it.
#[verifier::external_body]
fn iec_text(bytes: u64) -> (r: String) {
    bytesize::ByteSize(bytes).to_string_as(true)
}

/// Calls `str::replace`: the text is a function of the three strings alone.
#[verifier::external_body]
fn replace(s: &str, from: &str, to: &str) -> (r: String)
    ensures
        r@ == replaced(s@, from@, to@),
{
    s.replace(from, to)
}

/// Calls `str::to_uppercase`: the text is a function of the string alone.
#[verifier::external_body]
fn to_uppercase(s: &str) -> (r: String)
    ensures
        r@ == uppercase(s@),
{
    s.to_uppercase()
}

/// Shortens a size that is written with binary units, such as `64.0 KiB`,
/// to the form of a report, such as `64.0K`.
pub fn shorten(text: &str) -> (r: String)
    ensures
        r@ == short_form(text@),
{
    let short = replace(text, "iB", "");
    let joined = replace(short.as_str(), " ", "");
    to_uppercase(joined.as_str())
}

/// Writes a size in the short form of a report, such as `64.0K` or `512B`:
/// the short form of the size as written with binary units.
pub fn humanize(bytes: u64) -> (r: String)
    ensures
        exists|text: Seq<char>| r@ == #[trigger] short_form(text),
{
    let size = iec_text(bytes);
    shorten(size.as_str())
}

fn under(name: &[char], dir: &str) -> (r: bool)
    ensures
        r == dir@.is_prefix_of(name@),
{
    let d = chars_of(dir);
    begins_with(name, d.as_slice())
}

fn called(name: &[char], other: &str) -> (r: bool)
    ensures
        r == (name@ == other@),
{
    let o = chars_of(other);
    same_chars(name, o.as_slice())
}

/// Whether `file` names a resource that a report leaves out by default.
pub fn noise(file: &str) -> (r: bool)
    ensures
        r == is_noise(file@),
{
    let name_chars = chars_of(file);
    let name = name_chars.as_slice();
    under(name, "/bin/") || called(name, "/dev/null") || under(name, "/etc/") || under(
        name,
        "/lib/",
    ) || under(name, "/lib64/") || under(name, "/opt/") || under(name, "/proc/") || under(
        name,
        "/run/",
    ) || under(name, "/sbin/") || under(name, "/sys/") || under(name, "/tmp/") || under(
        name,
        "/usr/",
    ) || called(name, "STDOUT") || called(name, "STDERR") || called(name, "STDIN") || called(
        name,
        "SOCKET",
    ) || called(name, "DUP") || called(name, "PIPE")
}

impl SummaryView {
    /// The summary of a resource on which nothing has happened yet.
    pub open spec fn fresh(file: Seq<char>) -> SummaryView {
        SummaryView {
            file,
            read_freq: Map::empty(),
            write_freq: Map::empty(),
            read_bytes: 0,
            write_bytes: 0,
        }
    }

    /// The same resource with nothing recorded.
    pub open spec fn reset(self) -> SummaryView {
        SummaryView::fresh(self.file)
    }

    /// Whether one more read of `op_size` that returned `bytes` can be counted.
    pub open spec fn read_fits(self, op_size: u64, bytes: u64) -> bool {
        count_of(self.read_freq, op_size) < u64::MAX && self.read_bytes + bytes <= u64::MAX
    }

    /// Whether one more write of `op_size` that returned `bytes` can be counted.
    pub open spec fn write_fits(self, op_size: u64, bytes: u64) -> bool {
        count_of(self.write_freq, op_size) < u64::MAX && self.write_bytes + bytes <= u64::MAX
    }

    /// The summary after one more read of `op_size` that returned `bytes`.
    pub open spec fn record_read(self, op_size: u64, bytes: u64) -> SummaryView {
        SummaryView {
            read_freq: self.read_freq.insert(
                op_size,
                (count_of(self.read_freq, op_size) + 1) as u64,
            ),
            read_bytes: (self.read_bytes + bytes) as u64,
            ..self
        }
    }

    /// The summary after one more write of `op_size` that returned `bytes`.
    pub open spec fn record_write(self, op_size: u64, bytes: u64) -> SummaryView {
        SummaryView {
            write_freq: self.write_freq.insert(
                op_size,
                (count_of(self.write_freq, op_size) + 1) as u64,
            ),
            write_bytes: (self.write_bytes + bytes) as u64,
            ..self
        }
    }

    /// Whether the summary is part of a report: always where all are asked
    /// for, else unless its resource is noise.
    pub open spec fn should_show(self, config: Config) -> bool {
        config.verbose || !is_noise(self.file)
    }

    /// What is said of the summary when it is finished.
    pub open spec fn report(self, config: Config) -> Report {
        if !self.should_show(config) {
            Report::Hidden
        } else if self.read_freq.dom().len() == 0 && self.write_freq.dom().len() == 0 {
            Report::Idle
        } else {
            Report::Lines {
                read: tally_of(self.read_freq, self.read_bytes),
                write: tally_of(self.write_freq, self.write_bytes),
            }
        }
    }
}

impl View for Summary {
    type V = SummaryView;

    open spec fn view(&self) -> SummaryView {
        SummaryView {
            file: self.file@,
            read_freq: self.read_freq@,
            write_freq: self.write_freq@,
            read_bytes: self.read_bytes,
            write_bytes: self.write_bytes,
        }
    }
}

impl PartialEq for Summary {
    fn eq(&self, other: &Summary) -> (r: bool) {
        self.file == other.file && self.read_bytes == other.read_bytes && self.write_bytes
            == other.write_bytes && same_counts(&self.read_freq, &other.read_freq) && same_counts(
            &self.write_freq,
            &other.write_freq,
        )
    }
}

impl vstd::std_specs::cmp::PartialEqSpecImpl for Summary {
    open spec fn obeys_eq_spec() -> bool {
        true
    }

    open spec fn eq_spec(&self, other: &Summary) -> bool {
        self@ == other@
    }
}

impl Eq for Summary {

}

impl Clone for Summary {
    fn clone(&self) -> (r: Summary)
        ensures
            r@ == self@,
    {
        Summary {
            file: self.file.clone(),
            read_freq: self.read_freq.clone(),
            write_freq: self.write_freq.clone(),
            read_bytes: self.read_bytes,
            write_bytes: self.write_bytes,
        }
    }
}

/// Whether two histograms hold the same counts for the same sizes.
pub fn same_counts(a: &HashMap<u64, u64>, b: &HashMap<u64, u64>) -> (r: bool)
    ensures
        r == (a@ == b@),
{
    if a.len() != b.len() {
        return false;
    }
    proof {
        let keys = spec_keys_iter(a).remaining();
        assert forall|i: int| 0 <= i < keys.len() implies a@.contains_key(
            #[trigger] keys.unref()[i],
        ) by {
            assert(keys.unref().to_set().contains(keys.unref()[i]));
        }
    }
    for k in it: a.keys()
        invariant
            a@.dom().len() == b@.dom().len(),
            it.seq().unref().to_set() == a@.dom(),
            forall|i: int|
                0 <= i < it.seq().len() ==> a@.contains_key(#[trigger] it.seq().unref()[i]),
            forall|i: int|
                0 <= i < it.index() ==> b@.contains_key(#[trigger] it.seq().unref()[i]) && b@[it.seq().unref()[i]]
                    == a@[it.seq().unref()[i]],
    {
        assert(it.seq().unref()[it.index() as int] == *k);
        match (a.get(k), b.get(k)) {
            (Some(x), Some(y)) => {
                if *x != *y {
                    assert(a@[*k] != b@[*k]);
                    return false;
                }
            },
            _ => {
                assert(a@.contains_key(*k) && !b@.contains_key(*k));
                return false;
            },
        }
    }
    proof {
        assert forall|k: u64| a@.contains_key(k) implies b@.contains_key(k) && b@[k] == a@[k] by {
            assert(a@.dom().contains(k));
        }
        assert(a@.dom().subset_of(b@.dom()));
        vstd::set_lib::lemma_subset_equality(a@.dom(), b@.dom());
        assert(a@ =~= b@);
    }
    true
}

/// The number of operations that the histogram `freq` has seen.
pub fn ops_in(freq: &HashMap<u64, u64>) -> (r: u128)
    ensures
        r == total_ops(freq@),
{
    let mut acc: u128 = 0;
    let ghost mut rest: Map<u64, u64> = freq@;
    let n = freq.len();
    proof {
        let keys = spec_keys_iter(freq).remaining();
        assert forall|i: int| 0 <= i < keys.len() implies freq@.contains_key(
            #[trigger] keys.unref()[i],
        ) by {
            assert(keys.unref().to_set().contains(keys.unref()[i]));
        }
    }
    for k in it: freq.keys()
        invariant
            n == freq@.dom().len(),
            it.seq().no_duplicates(),
            it.seq().unref().to_set() == freq@.dom(),
            it.seq().len() == freq@.dom().len(),
            rest.dom().finite(),
            rest.dom().len() == it.seq().len() - it.index(),
            forall|i: int|
                it.index() <= i < it.seq().len() ==> rest.contains_key(
                    #[trigger] it.seq().unref()[i],
                ),
            forall|j: u64| #[trigger]
                rest.contains_key(j) ==> freq@.contains_key(j) && rest[j] == freq@[j],
            acc + total_ops(rest) == total_ops(freq@),
            acc <= it.index() * u64::MAX,
    {
        let count: u64 = match freq.get(k) {
            Some(c) => *c,
            None => 0,
        };
        proof {
            let i = it.index() as int;
            assert(it.seq().unref()[i] == *k);
            assert(it.seq().unref().to_set().contains(*k));
            assert(rest.contains_key(it.seq().unref()[i]));
            assert forall|j: int| i < j < it.seq().len() implies it.seq().unref()[j] != *k by {
                assert(it.seq()[i] != it.seq()[j]);
            }
            lemma_total_ops_remove(rest, *k);
            assert(it.index() * u64::MAX + u64::MAX == (it.index() + 1) * u64::MAX)
                by (nonlinear_arith);
            assert((it.index() + 1) * u64::MAX <= usize::MAX * u64::MAX) by (nonlinear_arith)
                requires
                    it.index() + 1 <= usize::MAX,
            ;
            assert(usize::MAX * u64::MAX <= u64::MAX * u64::MAX) by (nonlinear_arith)
                requires
                    usize::MAX <= u64::MAX,
            ;
            rest = rest.remove(*k);
        }
        acc = acc + count as u128;
    }
    acc
}

/// The largest operation size that the histogram `freq` has seen, if any.
pub fn largest_in(freq: &HashMap<u64, u64>) -> (r: Option<u64>)
    ensures
        r is None <==> freq@.dom().len() == 0,
        r matches Some(k) ==> is_largest(freq@, k) && k == largest_op(freq@),
{
    let mut best: Option<u64> = None;
    for k in it: freq.keys()
        invariant
            it.seq().unref().to_set() == freq@.dom(),
            it.seq().len() == freq@.dom().len(),
            best is None <==> it.index() == 0,
            best matches Some(b) ==> freq@.contains_key(b) && forall|i: int|
                0 <= i < it.index() ==> *#[trigger] it.seq()[i] <= b,
    {
        assert(it.seq().unref()[it.index() as int] == *k);
        assert(it.seq().unref().to_set().contains(*k));
        match best {
            None => {
                best = Some(*k);
            },
            Some(b) => {
                if *k > b {
                    best = Some(*k);
                }
            },
        }
    }
    proof {
        if let Some(b) = best {
            lemma_largest_unique(freq@, b);
        }
    }
    best
}

/// What is reported of one direction of I/O: its byte total, the number of
/// its operations and the largest size one asked for; nothing where the
/// histogram is empty.
pub fn tally(freq: &HashMap<u64, u64>, bytes: u64) -> (r: Option<Tally>)
    ensures
        r == tally_of(freq@, bytes),
{
    match largest_in(freq) {
        None => None,
        Some(op_size) => Some(Tally { bytes, ops: ops_in(freq), op_size }),
    }
}

impl Summary {
    /// A summary for the resource `file`, with nothing recorded.
    pub fn new(file: &str) -> (r: Summary)
        ensures
            r@ == SummaryView::fresh(file@),
    {
        Summary {
            file: String::from_str(file),
            read_freq: HashMap::new(),
            write_freq: HashMap::new(),
            read_bytes: 0,
            write_bytes: 0,
        }
    }

    /// A summary for one end of a pipe.
    pub fn pipe() -> (r: Summary)
        ensures
            r@ == SummaryView::fresh("PIPE"@),
    {
        Summary::new("PIPE")
    }

    /// A summary for a socket.
    pub fn socket() -> (r: Summary)
        ensures
            r@ == SummaryView::fresh("SOCKET"@),
    {
        Summary::new("SOCKET")
    }

    /// Forgets everything recorded and keeps the name.
    pub fn reset(&mut self)
        ensures
            final(self)@ == old(self)@.reset(),
    {
        self.read_freq.clear();
        self.write_freq.clear();
        self.read_bytes = 0;
        self.write_bytes = 0;
    }

    /// Whether one more read of `op_size` that returned `bytes` can be counted
    /// without a counter leaving its 64 bits.
    pub fn read_fits(&self, op_size: u64, bytes: u64) -> (r: bool)
        ensures
            r == self@.read_fits(op_size, bytes),
    {
        let count: u64 = match self.read_freq.get(&op_size) {
            Some(c) => *c,
            None => 0,
        };
        count < u64::MAX && bytes <= u64::MAX - self.read_bytes
    }

    /// Whether one more write of `op_size` that returned `bytes` can be counted
    /// without a counter leaving its 64 bits.
    pub fn write_fits(&self, op_size: u64, bytes: u64) -> (r: bool)
        ensures
            r == self@.write_fits(op_size, bytes),
    {
        let count: u64 = match self.write_freq.get(&op_size) {
            Some(c) => *c,
            None => 0,
        };
        count < u64::MAX && bytes <= u64::MAX - self.write_bytes
    }

    /// Counts one read that asked for `op_size` bytes and got `bytes`.
    pub fn update_read(&mut self, op_size: u64, bytes: u64)
        requires
            old(self)@.read_fits(op_size, bytes),
        ensures
            final(self)@ == old(self)@.record_read(op_size, bytes),
    {
        let count: u64 = match self.read_freq.get(&op_size) {
            Some(c) => *c,
            None => 0,
        };
        self.read_freq.insert(op_size, count + 1);
        self.read_bytes = self.read_bytes + bytes;
    }

    /// Counts one write that offered `op_size` bytes and wrote `bytes`.
    pub fn update_write(&mut self, op_size: u64, bytes: u64)
        requires
            old(self)@.write_fits(op_size, bytes),
        ensures
            final(self)@ == old(self)@.record_write(op_size, bytes),
    {
        let count: u64 = match self.write_freq.get(&op_size) {
            Some(c) => *c,
            None => 0,
        };
        self.write_freq.insert(op_size, count + 1);
        self.write_bytes = self.write_bytes + bytes;
    }

    /// Whether the summary is part of a report.
    pub fn should_show(&self, config: Config) -> (r: bool)
        ensures
            r == self@.should_show(config),
    {
        config.verbose || !noise(self.file.as_str())
    }

    /// What to say of the summary when it is finished: nothing where it is
    /// left out, a remark where no I/O was seen, else the figures of its
    /// reads and of its writes.
    pub fn show(&self, config: Config) -> (r: Report)
        ensures
            r == self@.report(config),
    {
        if !self.should_show(config) {
            return Report::Hidden;
        }
        let read = tally(&self.read_freq, self.read_bytes);
        let write = tally(&self.write_freq, self.write_bytes);
        if read.is_none() && write.is_none() {
            Report::Idle
        } else {
            Report::Lines { read, write }
        }
    }
}

/// The tables of a report on `summaries`: the reads of each that is shown
/// and was read, and the writes of each that is shown and was written, in the
/// order of the summaries.
pub fn show_table(summaries: &[Summary], config: Config) -> (r: Tables)
    ensures
        rows_view(r.reads@) == read_rows(summaries_view(summaries@), config),
        rows_view(r.writes@) == write_rows(summaries_view(summaries@), config),
{
    let mut reads: Vec<Row> = Vec::new();
    let mut writes: Vec<Row> = Vec::new();
    let ghost all = summaries_view(summaries@);
    let mut i: usize = 0;
    while i < summaries.len()
        invariant
            i <= summaries.len(),
            all == summaries_view(summaries@),
            rows_view(reads@) == read_rows(all.take(i as int), config),
            rows_view(writes@) == write_rows(all.take(i as int), config),
        decreases summaries.len() - i,
    {
        let summary = &summaries[i];
        proof {
            assert(all.take(i + 1).drop_last() =~= all.take(i as int));
            assert(all.take(i + 1).last() == summary@);
        }
        if summary.should_show(config) {
            if let Some(t) = tally(&summary.read_freq, summary.read_bytes) {
                let ghost before = reads@;
                reads.push(
                    Row { ops: t.ops, bytes: t.bytes, op_size: t.op_size, file: summary.file.clone() },
                );
                assert(rows_view(reads@) =~= rows_view(before).push(row_of(summary@.file, t)));
            }
            if let Some(t) = tally(&summary.write_freq, summary.write_bytes) {
                let ghost before = writes@;
                writes.push(
                    Row { ops: t.ops, bytes: t.bytes, op_size: t.op_size, file: summary.file.clone() },
                );
                assert(rows_view(writes@) =~= rows_view(before).push(row_of(summary@.file, t)));
            }
        }
        i += 1;
    }
    assert(all.take(summaries.len() as int) =~= all);
    Tables { reads, writes }
}

} // verus!
