//! The compiled patterns against which trace lines are held.

use vstd::prelude::*;
use crate::syscall::{texts, PatternError, Shape};

verus! {

/// `regex::Regex`, a compiled regular expression: nothing of its inside is known.
#[verifier::external_type_specification]
#[verifier::external_body]
pub struct ExRegex(regex::Regex);

/// `regex::Error`, the reason why a pattern is refused: nothing of its inside is known.
#[verifier::external_type_specification]
#[verifier::external_body]
pub struct ExRegexError(regex::Error);

/// What `regex::Regex::new` returns for a pattern.
pub uninterp spec fn compiled(pattern: Seq<char>) -> Result<regex::Regex, regex::Error>;

/// What `regex::Regex::captures` finds of `re` in `line`: nothing where the
/// line has no match, else for each capture group after the whole match, in
/// order, the text it took part with, if it took part.
pub uninterp spec fn groups_of(re: regex::Regex, line: Seq<char>) -> Option<
    Seq<Option<Seq<char>>>,
>;

/// The outcome of a match as plain values.
pub open spec fn groups_view(found: Option<Vec<Option<String>>>) -> Option<
    Seq<Option<Seq<char>>>,
> {
    match found {
        Some(groups) => Some(texts(groups@)),
        None => None,
    }
}

/// What a line gives when held against the pattern of `shape`: nothing where
/// it does not match, else the texts of the pattern's capture groups.
pub open spec fn matched(shape: Shape, line: Seq<char>) -> Option<Seq<Option<Seq<char>>>> {
    match compiled(shape.pattern_text()) {
        Ok(re) => groups_of(re, line),
        Err(_) => None,
    }
}

/// Calls `regex::Regex::new`: the outcome, a compiled expression or the
/// reason why there is none, is a function of the pattern alone.
#[verifier::external_body]
fn compile(pattern: &str) -> (r: Result<regex::Regex, regex::Error>)
    ensures
        r == compiled(pattern@),
{
    regex::Regex::new(pattern)
}

/// Calls `regex::Regex::captures` and, on a match, `regex::Captures::get` for
/// each group after the whole match: the outcome is a function of the
/// expression and the line alone.
#[verifier::external_body]
fn captures(re: &regex::Regex, line: &str) -> (r: Option<Vec<Option<String>>>)
    ensures
        groups_view(r) == groups_of(*re, line@),
{
    let found = re.captures(line)?;
    let mut groups = Vec::new();
    for i in 1..found.len() {
        groups.push(found.get(i).map(|m| m.as_str().to_string()));
    }
    Some(groups)
}

/// The patterns of all shapes, compiled once.
pub struct Patterns {
    expressions: Vec<regex::Regex>,
}

impl Patterns {
    #[verifier::type_invariant]
    spec fn wf(self) -> bool {
        &&& self.expressions@.len() == Shape::count()
        &&& forall|i: int|
            0 <= i < Shape::count() ==> compiled(Shape::at(i).pattern_text()) == Ok::<
                regex::Regex,
                regex::Error,
            >(#[trigger] self.expressions@[i])
    }

    /// Compiles the pattern of each shape, in the order in which they are
    /// tried. Fails at the first pattern that is refused.
    pub fn new() -> (r: Result<Patterns, PatternError>)
        ensures
            match r {
                Ok(_) => forall|i: int|
                    0 <= i < Shape::count() ==> compiled(
                        #[trigger] Shape::at(i).pattern_text(),
                    ) is Ok,
                Err(e) => compiled(e.shape.pattern_text()) is Err && forall|i: int|
                    0 <= i < e.shape.position() ==> compiled(
                        #[trigger] Shape::at(i).pattern_text(),
                    ) is Ok,
            },
    {
        let mut expressions: Vec<regex::Regex> = Vec::new();
        let mut i: usize = 0;
        loop
            invariant
                i <= 14,
                expressions@.len() == i,
                forall|j: int|
                    0 <= j < i ==> compiled(Shape::at(j).pattern_text()) == Ok::<
                        regex::Regex,
                        regex::Error,
                    >(#[trigger] expressions@[j]),
            ensures
                i == 14,
            decreases 14 - i,
        {
            let shape = match Shape::nth(i) {
                Some(shape) => shape,
                None => {
                    break ;
                },
            };
            match compile(shape.pattern()) {
                Ok(re) => {
                    expressions.push(re);
                },
                Err(_) => {
                    assert forall|j: int| 0 <= j < shape.position() implies compiled(
                        #[trigger] Shape::at(j).pattern_text(),
                    ) is Ok by {
                        assert(compiled(Shape::at(j).pattern_text()) == Ok::<
                            regex::Regex,
                            regex::Error,
                        >(expressions@[j]));
                    }
                    return Err(PatternError { shape });
                },
            }
            i += 1;
        }
        assert forall|j: int| 0 <= j < Shape::count() implies compiled(
            #[trigger] Shape::at(j).pattern_text(),
        ) is Ok by {
            assert(compiled(Shape::at(j).pattern_text()) == Ok::<regex::Regex, regex::Error>(
                expressions@[j],
            ));
        }
        Ok(Patterns { expressions })
    }

    /// Holds `line` against the pattern of `shape`.
    pub fn groups(&self, shape: Shape, line: &str) -> (r: Option<Vec<Option<String>>>)
        ensures
            groups_view(r) == matched(shape, line@),
    {
        proof {
            use_type_invariant(self);
        }
        let i = shape.index();
        captures(&self.expressions[i], line)
    }
}

} // verus!
