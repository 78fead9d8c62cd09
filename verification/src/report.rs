//! When finished summaries are reported: each at once, or all at the end.

use vstd::prelude::*;
use crate::config::Config;
use crate::output::Output;
use crate::summary::{
    read_rows, rows_view, show_table, summaries_view, write_rows, Summary, SummaryView, Tables,
};

verus! {

/// Takes the finished summaries in, in the order in which they are finished.
#[derive(Debug)]
pub struct Reporter {
    pub config: Config,
    /// The summaries that wait for the tables at the end.
    pub held: Vec<Summary>,
}

/// A reporter as plain mathematical values.
pub struct ReporterView {
    pub config: Config,
    pub held: Seq<SummaryView>,
}

impl View for Reporter {
    type V = ReporterView;

    open spec fn view(&self) -> ReporterView {
        ReporterView { config: self.config, held: summaries_view(self.held@) }
    }
}

/// The view of a summary that may be absent.
pub open spec fn shown_view(s: Option<Summary>) -> Option<SummaryView> {
    match s {
        Some(s) => Some(s@),
        None => None,
    }
}

impl Reporter {
    /// A reporter that holds nothing yet.
    pub fn new(config: Config) -> (r: Reporter)
        ensures
            r@ == (ReporterView { config, held: Seq::empty() }),
    {
        let r = Reporter { config, held: Vec::new() };
        assert(r@.held =~= Seq::empty());
        r
    }

    /// Takes a finished summary in. Where each summary is reported at once,
    /// it is handed back to be reported now; where tables are asked for, it
    /// is held for them.
    pub fn accept(&mut self, summary: Summary) -> (now: Option<Summary>)
        ensures
            final(self)@.config == old(self)@.config,
            match old(self)@.config.output {
                Output::Continuous => shown_view(now) == Some(summary@) && final(self)@.held == old(
                    self,
                )@.held,
                Output::Table => now is None && final(self)@.held == old(self)@.held.push(
                    summary@,
                ),
            },
    {
        match self.config.output {
            Output::Continuous => Some(summary),
            Output::Table => {
                self.held.push(summary);
                assert(self@.held =~= old(self)@.held.push(summary@));
                None
            },
        }
    }

    /// Ends the report: where tables are asked for, the tables of all the
    /// summaries that were held, in the order in which they were finished.
    pub fn finish(self) -> (r: Option<Tables>)
        ensures
            match self@.config.output {
                Output::Continuous => r is None,
                Output::Table => match r {
                    Some(tables) => {
                        &&& rows_view(tables.reads@) == read_rows(self@.held, self@.config)
                        &&& rows_view(tables.writes@) == write_rows(self@.held, self@.config)
                    },
                    None => false,
                },
            },
    {
        match self.config.output {
            Output::Continuous => None,
            Output::Table => Some(show_table(self.held.as_slice(), self.config)),
        }
    }
}

} // verus!
