use vstd::prelude::*;
use crate::layout::Operation;

verus! {

/// What running one external tool gave.
#[derive(Clone, Debug, PartialEq, Eq)]
pub enum CommandResult {
    /// The tool ran and exited with `code`; `stderr` is what it printed there.
    Exited { code: i32, stderr: String },
    /// The tool could not be started at all.
    LaunchFailure { reason: String },
}

/// The recorded result of one operation of a plan.
#[derive(Clone, Debug, PartialEq, Eq)]
pub enum ExecutionOutcome {
    Succeeded { index: usize },
    /// `code` is `None` when the tool could not be started.
    Failed { index: usize, code: Option<i32>, diagnostics: String },
}

/// A step counts as done exactly when its tool ran and exited with status 0.
pub open spec fn is_success(r: CommandResult) -> bool {
    r matches CommandResult::Exited { code, .. } && code == 0
}

/// The outcome recorded for operation `index` when its tool gave `r`.
pub open spec fn outcome_for(index: usize, r: CommandResult) -> ExecutionOutcome {
    match r {
        CommandResult::Exited { code, stderr } => if code == 0 {
            ExecutionOutcome::Succeeded { index }
        } else {
            ExecutionOutcome::Failed { index, code: Some(code), diagnostics: stderr }
        },
        CommandResult::LaunchFailure { reason } => ExecutionOutcome::Failed {
            index,
            code: None,
            diagnostics: reason,
        },
    }
}

pub open spec fn ends_in_failure(outcomes: Seq<ExecutionOutcome>) -> bool {
    outcomes.len() > 0 && outcomes.last() is Failed
}

/// The outcomes of a plan of `n` operations whose tools gave `results` in
/// turn: each result is recorded against the next operation, and nothing is
/// recorded after a failure or once every operation has an outcome.
pub open spec fn run(n: nat, results: Seq<CommandResult>) -> Seq<ExecutionOutcome>
    decreases results.len(),
{
    if results.len() == 0 {
        Seq::empty()
    } else {
        let prev = run(n, results.drop_last());
        if ends_in_failure(prev) || prev.len() >= n {
            prev
        } else {
            prev.push(outcome_for(prev.len() as usize, results.last()))
        }
    }
}

/// Decides whether a tool run succeeded.
pub fn evaluate(r: &CommandResult) -> (ok: bool)
    ensures
        ok == is_success(*r),
{
    match r {
        CommandResult::Exited { code, .. } => *code == 0,
        CommandResult::LaunchFailure { .. } => false,
    }
}

/// The progress of a plan being carried out, one operation at a time.
pub struct Execution {
    plan: Vec<Operation>,
    outcomes: Vec<ExecutionOutcome>,
    results: Ghost<Seq<CommandResult>>,
}

impl Execution {
    pub closed spec fn plan_view(&self) -> Seq<Operation> {
        self.plan@
    }

    pub closed spec fn outcomes_view(&self) -> Seq<ExecutionOutcome> {
        self.outcomes@
    }

    /// The tool results recorded so far.
    pub closed spec fn results_view(&self) -> Seq<CommandResult> {
        self.results@
    }

    /// The outcomes are what [`run`] gives for the results recorded so far,
    /// one result for each outcome.
    pub open spec fn wf(&self) -> bool {
        &&& self.outcomes_view() == run(self.plan_view().len(), self.results_view())
        &&& self.results_view().len() == self.outcomes_view().len()
    }

    /// No operation is left to run: one failed, or all succeeded.
    pub open spec fn is_finished(&self) -> bool {
        ends_in_failure(self.outcomes_view()) || self.outcomes_view().len()
            >= self.plan_view().len()
    }

    pub fn new(plan: Vec<Operation>) -> (e: Execution)
        ensures
            e.wf(),
            e.plan_view() == plan@,
            e.outcomes_view().len() == 0,
    {
        Execution { plan, outcomes: Vec::new(), results: Ghost(Seq::empty()) }
    }

    /// Index of the operation to run next, if any.
    pub fn next_index(&self) -> (r: Option<usize>)
        requires
            self.wf(),
        ensures
            r == if self.is_finished() {
                None
            } else {
                Some(self.outcomes_view().len() as usize)
            },
    {
        let n = self.outcomes.len();
        if n >= self.plan.len() {
            None
        } else if n > 0 && matches!(self.outcomes[n - 1], ExecutionOutcome::Failed { .. }) {
            None
        } else {
            Some(n)
        }
    }

    /// The operation to run next, if any.
    pub fn next_operation(&self) -> (r: Option<&Operation>)
        requires
            self.wf(),
        ensures
            match r {
                Some(op) => !self.is_finished() && *op == self.plan_view()[self.outcomes_view().len() as int],
                None => self.is_finished(),
            },
    {
        let n = self.outcomes.len();
        if n >= self.plan.len() {
            None
        } else if n > 0 && matches!(self.outcomes[n - 1], ExecutionOutcome::Failed { .. }) {
            None
        } else {
            Some(&self.plan[n])
        }
    }

    /// Records what the tool of the next operation gave.
    pub fn record(&mut self, result: CommandResult)
        requires
            old(self).wf(),
            !old(self).is_finished(),
        ensures
            final(self).wf(),
            final(self).plan_view() == old(self).plan_view(),
            final(self).results_view() == old(self).results_view().push(result),
            final(self).outcomes_view() == old(self).outcomes_view().push(
                outcome_for(old(self).outcomes_view().len() as usize, result),
            ),
    {
        let ghost r = result;
        let ghost before = self.results@;
        let index = self.outcomes.len();
        let outcome = match result {
            CommandResult::Exited { code, stderr } => if code == 0 {
                ExecutionOutcome::Succeeded { index }
            } else {
                ExecutionOutcome::Failed { index, code: Some(code), diagnostics: stderr }
            },
            CommandResult::LaunchFailure { reason } => ExecutionOutcome::Failed {
                index,
                code: None,
                diagnostics: reason,
            },
        };
        self.outcomes.push(outcome);
        self.results = Ghost(before.push(r));
        proof {
            assert(self.results@.drop_last() =~= before);
        }
    }

    pub fn plan(&self) -> (r: &Vec<Operation>)
        ensures
            r@ == self.plan_view(),
    {
        &self.plan
    }

    pub fn outcomes(&self) -> (r: &Vec<ExecutionOutcome>)
        ensures
            r@ == self.outcomes_view(),
    {
        &self.outcomes
    }

    /// Every operation ran and succeeded.
    pub fn all_succeeded(&self) -> (b: bool)
        requires
            self.wf(),
        ensures
            b == (self.outcomes_view().len() == self.plan_view().len() && !ends_in_failure(
                self.outcomes_view(),
            )),
    {
        let n = self.outcomes.len();
        n == self.plan.len() && !(n > 0 && matches!(self.outcomes[n - 1], ExecutionOutcome::Failed { .. }))
    }
}

} // verus!
