//! The output formats of a report.

use vstd::prelude::*;

verus! {

/// How the finished summaries are presented.
#[derive(Clone, Copy, Debug, PartialEq, Eq, Structural)]
pub enum Output {
    /// Each summary is reported as soon as it is finished.
    Continuous,
    /// All summaries are collected and reported as tables at the end.
    Table,
}

/// What `str::to_lowercase` returns for a string.
pub uninterp spec fn lowercase(s: Seq<char>) -> Seq<char>;

/// Calls `str::to_lowercase`: the result is the lowercase form of `s` as std
/// computes it, a function of `s` alone.
#[verifier::external_body]
fn to_lowercase(s: &str) -> (r: String)
    ensures
        r@ == lowercase(s@),
{
    s.to_lowercase()
}

impl Output {
    /// The name of the format, in lower case.
    pub open spec fn name_text(self) -> Seq<char> {
        match self {
            Output::Continuous => "continuous"@,
            Output::Table => "table"@,
        }
    }

    /// The format that a lowercase name stands for.
    pub open spec fn named_lower(lower: Seq<char>) -> Option<Output> {
        if lower == "continuous"@ {
            Some(Output::Continuous)
        } else if lower == "table"@ {
            Some(Output::Table)
        } else {
            None
        }
    }

    /// The format that `s` names, whatever the case of its letters.
    pub open spec fn named(s: Seq<char>) -> Option<Output> {
        Output::named_lower(lowercase(s))
    }

    /// The name under which the format is chosen and shown.
    pub fn name(self) -> (r: &'static str)
        ensures
            r@ == self.name_text(),
    {
        match self {
            Output::Continuous => "continuous",
            Output::Table => "table",
        }
    }

    /// Both formats, in the order in which they are offered.
    pub fn variants() -> (r: Vec<Output>)
        ensures
            r@ == seq![Output::Continuous, Output::Table],
    {
        let mut v: Vec<Output> = Vec::new();
        v.push(Output::Continuous);
        v.push(Output::Table);
        v
    }

    /// Reads a name that is already in lower case.
    pub fn from_lower(lower: &str) -> (r: Option<Output>)
        ensures
            r == Output::named_lower(lower@),
    {
        if crate::text::same_text(lower, "continuous") {
            Some(Output::Continuous)
        } else if crate::text::same_text(lower, "table") {
            Some(Output::Table)
        } else {
            None
        }
    }

    /// Reads the name of a format, ignoring the case of its letters.
    pub fn parse(s: &str) -> (r: Option<Output>)
        ensures
            r == Output::named(s@),
    {
        let lower = to_lowercase(s);
        Output::from_lower(lower.as_str())
    }
}

impl Default for Output {
    fn default() -> (r: Output)
        ensures
            r == Output::Table,
    {
        Output::Table
    }
}

} // verus!
