//! The validation monitor: a rule-based observer attached to the pipeline.
//!
//! Rule configuration accumulates as text lines until activation flushes it
//! to the observer; activation is allowed exactly once per run. The observer
//! pushes violation reports asynchronously; reading the store returns a
//! snapshot. At teardown, finalization must return the clean sentinel, or the
//! run fails with the accumulated report text attached.

use vstd::prelude::*;
use crate::errors::EngineError;

verus! {

/// The exit code finalization returns when the observer saw nothing wrong.
pub const CLEAN_EXIT: u64 = 0;

/// The accumulated report text: every report on a line of its own.
pub open spec fn spec_summary(reports: Seq<String>) -> Seq<char>
    decreases reports.len(),
{
    if reports.len() == 0 {
        Seq::empty()
    } else {
        spec_summary(reports.drop_last()) + reports.last()@ + "\n"@
    }
}

/// The engine-side state of the validation monitor.
#[derive(Debug, Clone, PartialEq, Eq)]
pub struct MonitorState {
    /// Whether the observer has been attached to the pipeline.
    pub active: bool,
    /// Rule configuration lines accumulated before activation.
    pub config: Vec<String>,
    /// Violation reports pushed by the observer; append-mostly.
    pub reports: Vec<String>,
}

impl MonitorState {
    /// A monitor that has seen nothing and is not yet attached.
    pub fn new() -> (m: MonitorState)
        ensures
            !m.active,
            m.config@ =~= Seq::<String>::empty(),
            m.reports@ =~= Seq::<String>::empty(),
    {
        MonitorState { active: false, config: Vec::new(), reports: Vec::new() }
    }

    /// Accumulates one line of rule configuration. Configuration changes after
    /// activation are ignored for the rest of the run.
    pub fn add_config(&mut self, line: String)
        ensures
            !old(self).active ==> final(self).config@ == old(self).config@.push(line),
            old(self).active ==> *final(self) == *old(self),
            final(self).active == old(self).active,
            final(self).reports@ == old(self).reports@,
    {
        if !self.active {
            self.config.push(line);
        }
    }

    /// Attaches the observer to the pipeline. The accumulated configuration is
    /// returned so the caller can flush it to the observer at this point; a
    /// second activation in one run is a misuse error.
    pub fn activate(&mut self) -> (r: Result<Vec<String>, EngineError>)
        ensures
            match r {
                Ok(cfg) => {
                    &&& !old(self).active
                    &&& cfg@ == old(self).config@
                    &&& final(self).active
                    &&& final(self).config@ == old(self).config@
                    &&& final(self).reports@ == old(self).reports@
                },
                Err(e) => old(self).active && *final(self) == *old(self)
                    && e == EngineError::AlreadyActivated,
            },
    {
        if self.active {
            return Err(EngineError::AlreadyActivated);
        }
        self.active = true;
        let mut flushed: Vec<String> = Vec::new();
        let count = self.config.len();
        let mut i: usize = 0;
        while i < count
            invariant
                i <= count,
                count == self.config@.len(),
                flushed@ =~= self.config@.take(i as int),
            decreases count - i,
        {
            let line = self.config[i].clone();
            proof {
                assert(self.config@.take(i + 1).drop_last() =~= self.config@.take(i as int));
            }
            flushed.push(line);
            i = i + 1;
        }
        proof {
            assert(self.config@.take(count as int) =~= self.config@);
        }
        Ok(flushed)
    }

    /// Appends one violation report pushed by the observer. The store accepts
    /// reports at any time; a read returns a snapshot.
    pub fn record_report(&mut self, report: String)
        ensures
            final(self).reports@ == old(self).reports@.push(report),
            final(self).active == old(self).active,
            final(self).config@ == old(self).config@,
    {
        self.reports.push(report);
    }

    /// The number of violation reports recorded so far. Asking before
    /// activation is a misuse error.
    pub fn report_count(&self) -> (r: Result<usize, EngineError>)
        ensures
            match r {
                Ok(n) => self.active && n == self.reports@.len(),
                Err(e) => !self.active && e == EngineError::NotActivated,
            },
    {
        if !self.active {
            return Err(EngineError::NotActivated);
        }
        Ok(self.reports.len())
    }

    /// The accumulated report text, one report per line.
    pub fn reports_summary(&self) -> (s: String)
        ensures
            s@ == spec_summary(self.reports@),
    {
        let mut s = String::new();
        let count = self.reports.len();
        let mut i: usize = 0;
        proof {
            assert(self.reports@.take(0) =~= Seq::<String>::empty());
        }
        while i < count
            invariant
                i <= count,
                count == self.reports@.len(),
                s@ == spec_summary(self.reports@.take(i as int)),
            decreases count - i,
        {
            proof {
                assert(self.reports@.take(i + 1).drop_last() =~= self.reports@.take(i as int));
                assert(self.reports@.take(i + 1).last() == self.reports@[i as int]);
            }
            s.append(self.reports[i].as_str());
            s.append("\n");
            i = i + 1;
        }
        proof {
            assert(self.reports@.take(count as int) =~= self.reports@);
        }
        s
    }

    /// The assertion step: passes exactly when no violation was recorded.
    /// A non-empty store fails with the full report text, not just a count;
    /// asserting before activation is a misuse error.
    pub fn assert_no_reports(&self) -> (r: Result<(), EngineError>)
        ensures
            match r {
                Ok(()) => self.active && self.reports@.len() == 0,
                Err(e) => if !self.active {
                    e == EngineError::NotActivated
                } else {
                    &&& self.reports@.len() > 0
                    &&& (e matches EngineError::ViolationsReported { count, summary }
                        && count == self.reports@.len() && summary@ == spec_summary(
                        self.reports@,
                    ))
                },
            },
    {
        if !self.active {
            return Err(EngineError::NotActivated);
        }
        let count = self.reports.len();
        if count == 0 {
            Ok(())
        } else {
            Err(
                EngineError::ViolationsReported {
                    count,
                    summary: self.reports_summary(),
                },
            )
        }
    }

    /// Teardown: judges the observer's finalization. Any exit code other than
    /// the clean sentinel fails the run, with the report text attached.
    pub fn finalize(&self, exit_code: u64) -> (r: Result<(), EngineError>)
        ensures
            match r {
                Ok(()) => exit_code == CLEAN_EXIT,
                Err(e) => exit_code != CLEAN_EXIT
                    && (e matches EngineError::FinalizeFailed { code, summary }
                        && code == exit_code && summary@ == spec_summary(self.reports@)),
            },
    {
        if exit_code == CLEAN_EXIT {
            Ok(())
        } else {
            Err(EngineError::FinalizeFailed { code: exit_code, summary: self.reports_summary() })
        }
    }
}

} // verus!
