//! The diagnostic run: which of four ways would make the project work.
//!
//! The project is looked at as it is and, where that fails, with its
//! dependencies at their lowest versions; each time it counts whether the
//! configured compiler works and, if not, whether another one does.

use vstd::prelude::*;
use crate::audit::{all_usable, check_all, pick_rustc, works_under, Event};
use crate::build_config::BuildConfig;
use crate::command::CommandOutput;
use crate::extract::{cfgs_after, extract, extracted, Records};

verus! {

/// Which of the four ways work. A way that was not tried, because an earlier
/// one worked, counts as working.
#[derive(Clone, Copy, Debug, PartialEq, Eq, Structural)]
pub struct Matrix {
    /// The project as it is, under the configured compiler.
    pub as_is: bool,
    /// The project as it is, under another compiler.
    pub rustc: bool,
    /// The lowest versions, under the configured compiler.
    pub minimal: bool,
    /// The lowest versions, under another compiler.
    pub minimal_rustc: bool,
}

/// What the diagnostic run waits for.
#[derive(Clone, Copy, Debug, PartialEq, Eq, Structural)]
pub enum TestPhase {
    /// The look at the project as it is.
    First,
    /// The locking of the lowest versions.
    Regenerating,
    /// The look at the lowest versions.
    Second,
    Done,
}

/// What the diagnostic run asks its caller to do.
#[derive(Debug)]
pub enum TestAction {
    /// Run the build tool through the compiler wrapper; `quiet` asks not to
    /// report the pass to the user.
    Extract { quiet: bool },
    /// Ask the package manager to lock every dependency at its lowest
    /// version.
    MinimalVersions,
    /// The run is over: its exit code, what it found unless it broke down,
    /// and the compiler that works where another one had to be chosen.
    Finish { code: i32, result: Option<Matrix>, rustc: Option<u32> },
}

/// The state of a diagnostic run.
#[derive(Debug)]
pub struct Diagnosis<'c> {
    pub config: BuildConfig<'c>,
    pub phase: TestPhase,
    /// What the last extraction pass saw.
    pub records: Records,
}

/// What is found when a look at the project succeeds under the configured
/// compiler.
pub open spec fn found_working(second: bool) -> Matrix {
    Matrix { as_is: !second, rustc: !second, minimal: true, minimal_rustc: true }
}

/// What is found when a look at the project succeeds under another compiler.
pub open spec fn found_rustc(second: bool) -> Matrix {
    Matrix { as_is: false, rustc: !second, minimal: !second, minimal_rustc: true }
}

/// What is found when nothing works.
pub open spec fn found_nothing() -> Matrix {
    Matrix { as_is: false, rustc: false, minimal: false, minimal_rustc: false }
}

impl<'c> Diagnosis<'c> {
    /// The settings and the records of the run are well formed.
    pub open spec fn wf(self) -> bool {
        self.config.wf() && self.records.wf()
    }

    /// The run broke down.
    pub open spec fn broke(self, action: TestAction) -> bool {
        &&& self.phase is Done
        &&& action matches TestAction::Finish { code, result, rustc }
        &&& code == -1
        &&& result is None
        &&& rustc is None
    }

    /// What a look at the project leads to. A build tool that could not be
    /// started or that failed, and a record that cannot be read, break the
    /// run down with code -1. Else the run ends with code 0 where every crate
    /// works under the configured compiler, and also where another compiler
    /// works, the newest of which is reported. Where none does, the first
    /// look is followed by the locking of the lowest versions, and the
    /// second ends the run with code -2.
    pub open spec fn looked(
        self,
        pre: Self,
        answer: Result<CommandOutput, String>,
        action: TestAction,
    ) -> bool {
        let second = pre.phase is Second;
        match answer {
            Err(_) => self.broke(action),
            Ok(output) => match extracted(output) {
                Err(_) => self.broke(action),
                Ok(records) => {
                    &&& self.records@ == records
                    &&& self.config.same_settings(pre.config)
                    &&& forall|key: Seq<char>| #[trigger]
                        self.config.cfgs(key) == cfgs_after(
                            pre.config.cfgs(key),
                            records,
                            records.len() as int,
                            key,
                        )
                    &&& if all_usable(self.records, self.config) {
                        &&& self.phase is Done
                        &&& action matches TestAction::Finish { code, result, rustc }
                        &&& code == 0
                        &&& result == Some(found_working(second))
                        &&& rustc is None
                    } else if exists|w: int| works_under(self.records, self.config.table(), w) {
                        &&& self.phase is Done
                        &&& action matches TestAction::Finish { code, result, rustc }
                        &&& code == 0
                        &&& result == Some(found_rustc(second))
                        &&& rustc matches Some(v)
                        &&& works_under(self.records, self.config.table(), v as int)
                        &&& forall|w: int|
                            works_under(self.records, self.config.table(), w) ==> w <= v
                    } else if second {
                        &&& self.phase is Done
                        &&& action matches TestAction::Finish { code, result, rustc }
                        &&& code == -2
                        &&& result == Some(found_nothing())
                        &&& rustc is None
                    } else {
                        self.phase is Regenerating && action is MinimalVersions
                    }
                },
            },
        }
    }

    /// What the locking of the lowest versions leads to: the second look, or
    /// a breakdown where the package manager could not be started or failed.
    pub open spec fn regenerated(
        self,
        pre: Self,
        answer: Result<CommandOutput, String>,
        action: TestAction,
    ) -> bool {
        match answer {
            Err(_) => self.broke(action),
            Ok(output) => if !output.success {
                self.broke(action)
            } else {
                &&& self.phase is Second
                &&& action matches TestAction::Extract { quiet }
                &&& quiet
                &&& self.config == pre.config
                &&& self.records == pre.records
            },
        }
    }

    /// What a step leads to: what the phase makes of the event it waits for.
    /// Any other event breaks the run down.
    pub open spec fn stepped(self, pre: Self, event: Event, action: TestAction) -> bool {
        match (pre.phase, event) {
            (TestPhase::First, Event::Extracted(answer)) => self.looked(pre, answer, action),
            (TestPhase::Second, Event::Extracted(answer)) => self.looked(pre, answer, action),
            (TestPhase::Regenerating, Event::Regenerated(answer)) => self.regenerated(
                pre,
                answer,
                action,
            ),
            _ => self.broke(action),
        }
    }

    /// Ends the run in a breakdown.
    fn fail(&mut self) -> (action: TestAction)
        requires
            old(self).wf(),
        ensures
            final(self).wf(),
            final(self).broke(action),
    {
        self.phase = TestPhase::Done;
        TestAction::Finish { code: -1, result: None, rustc: None }
    }

    /// Takes in a look at the project.
    fn look(&mut self, answer: Result<CommandOutput, String>) -> (action: TestAction)
        requires
            old(self).wf(),
            old(self).phase is First || old(self).phase is Second,
        ensures
            final(self).wf(),
            final(self).looked(*old(self), answer, action),
    {
        let second = match self.phase {
            TestPhase::Second => true,
            _ => false,
        };
        let output = match answer {
            Ok(o) => o,
            Err(_) => {
                return self.fail();
            },
        };
        let records = match extract(&mut self.config, &output) {
            Ok(r) => r,
            Err(_) => {
                return self.fail();
            },
        };
        self.records = records;
        if check_all(&self.records, &self.config) {
            self.phase = TestPhase::Done;
            return TestAction::Finish {
                code: 0,
                result: Some(
                    Matrix { as_is: !second, rustc: !second, minimal: true, minimal_rustc: true },
                ),
                rustc: None,
            };
        }
        match pick_rustc(&self.records, &self.config) {
            Ok(v) => {
                self.phase = TestPhase::Done;
                TestAction::Finish {
                    code: 0,
                    result: Some(
                        Matrix {
                            as_is: false,
                            rustc: !second,
                            minimal: !second,
                            minimal_rustc: true,
                        },
                    ),
                    rustc: Some(v),
                }
            },
            Err(_) => {
                if second {
                    self.phase = TestPhase::Done;
                    TestAction::Finish {
                        code: -2,
                        result: Some(
                            Matrix {
                                as_is: false,
                                rustc: false,
                                minimal: false,
                                minimal_rustc: false,
                            },
                        ),
                        rustc: None,
                    }
                } else {
                    self.phase = TestPhase::Regenerating;
                    TestAction::MinimalVersions
                }
            },
        }
    }

    /// Takes in what happened outside and says what to do next.
    pub fn step(&mut self, event: Event) -> (action: TestAction)
        requires
            old(self).wf(),
        ensures
            final(self).wf(),
            final(self).stepped(*old(self), event, action),
    {
        match (self.phase, event) {
            (TestPhase::First, Event::Extracted(answer)) => self.look(answer),
            (TestPhase::Second, Event::Extracted(answer)) => self.look(answer),
            (TestPhase::Regenerating, Event::Regenerated(answer)) => {
                match answer {
                    Err(_) => self.fail(),
                    Ok(output) => {
                        if !output.success {
                            self.fail()
                        } else {
                            self.phase = TestPhase::Second;
                            TestAction::Extract { quiet: true }
                        }
                    },
                }
            },
            _ => self.fail(),
        }
    }
}

/// Begins a diagnostic run under the given settings: its state, and its
/// first action, which is an extraction pass that is reported to the user.
pub fn test<'c>(config: BuildConfig<'c>) -> (r: (Diagnosis<'c>, TestAction))
    requires
        config.wf(),
    ensures
        r.0.wf(),
        r.0.phase is First,
        r.0.config == config,
        r.0.records@.len() == 0,
        r.1 matches TestAction::Extract { quiet } && !quiet,
{
    (
        Diagnosis { config, phase: TestPhase::First, records: Records::empty() },
        TestAction::Extract { quiet: false },
    )
}

} // verus!
