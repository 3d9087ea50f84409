//! The batch runner: one command applied across many projects, one project
//! at a time, with keep-going bookkeeping.
//!
//! Only a reported nonzero exit may be absorbed, and only when the caller
//! opted into keep-going; a startup, decode, drain or wait failure signals
//! an execution-environment problem and aborts the batch whatever the
//! policy.  The batch as a whole fails exactly when its failure list is
//! non-empty.

use vstd::prelude::*;

use crate::outcome::CommandError;

verus! {

/// How one project's command ended, as the batch policy sees it.
#[derive(Clone, Copy, Debug, Eq, PartialEq, Structural)]
pub enum StepResult {
    /// The command succeeded.
    Success,
    /// The command ran and exited nonzero: recordable under keep-going.
    ExitFailure,
    /// Anything else went wrong: always fatal.
    FatalFailure,
}

/// Classifies one command result for the batch policy.
pub fn step_result_of(r: &Result<(), CommandError>) -> (sr: StepResult)
    ensures
        r is Ok ==> sr == StepResult::Success,
        r matches Err(e) ==> sr == (if e.spec_is_exit() {
            StepResult::ExitFailure
        } else {
            StepResult::FatalFailure
        }),
{
    match r {
        Ok(_) => StepResult::Success,
        Err(e) => if e.is_exit() {
            StepResult::ExitFailure
        } else {
            StepResult::FatalFailure
        },
    }
}

/// What the batch loop does after one project.
#[derive(Clone, Copy, Debug, Eq, PartialEq, Structural)]
pub enum BatchDecision {
    /// Go on to the next project.
    Continue,
    /// Stop at once and propagate the failure.
    Abort,
}

/// What running a whole batch yields: how many projects were processed, the
/// names recorded as failed, and whether the batch stopped early.
pub open spec fn spec_batch(keep_going: bool, items: Seq<(Seq<char>, StepResult)>) -> (
    int,
    Seq<Seq<char>>,
    bool,
)
    decreases items.len(),
{
    if items.len() == 0 {
        (0int, Seq::<Seq<char>>::empty(), false)
    } else {
        match items[0].1 {
            StepResult::Success => {
                let t = spec_batch(keep_going, items.drop_first());
                (t.0 + 1, t.1, t.2)
            },
            StepResult::ExitFailure => {
                if keep_going {
                    let t = spec_batch(keep_going, items.drop_first());
                    (t.0 + 1, seq![items[0].0] + t.1, t.2)
                } else {
                    (1int, Seq::<Seq<char>>::empty(), true)
                }
            },
            StepResult::FatalFailure => (1int, Seq::<Seq<char>>::empty(), true),
        }
    }
}

/// The running state of one batch: the policy and the failures so far.
pub struct BatchRunner {
    pub keep_going: bool,
    pub failures: Vec<String>,
}

/// The views of the recorded failure names.
pub open spec fn names_view(names: Seq<String>) -> Seq<Seq<char>> {
    names.map_values(|n: String| n@)
}

impl BatchRunner {
    /// Starts a batch with an empty failure list.
    pub fn new(keep_going: bool) -> (r: BatchRunner)
        ensures
            r.keep_going == keep_going,
            r.failures@.len() == 0,
    {
        BatchRunner { keep_going, failures: Vec::new() }
    }

    /// Applies the policy to one project's result: success continues
    /// untouched; a nonzero exit is recorded and continued under keep-going
    /// and aborts otherwise; every other failure aborts.
    pub fn record(&mut self, name: &str, sr: StepResult) -> (d: BatchDecision)
        ensures
            final(self).keep_going == old(self).keep_going,
            sr == StepResult::Success ==> d == BatchDecision::Continue && final(self).failures
                == old(self).failures,
            sr == StepResult::ExitFailure && old(self).keep_going ==> d
                == BatchDecision::Continue,
            sr == StepResult::ExitFailure && old(self).keep_going ==> names_view(
                final(self).failures@,
            ) == names_view(old(self).failures@).push(name@),
            sr == StepResult::ExitFailure && !old(self).keep_going ==> d == BatchDecision::Abort
                && final(self).failures == old(self).failures,
            sr == StepResult::FatalFailure ==> d == BatchDecision::Abort && final(self).failures
                == old(self).failures,
    {
        match sr {
            StepResult::Success => BatchDecision::Continue,
            StepResult::ExitFailure => {
                if self.keep_going {
                    self.failures.push(name.to_owned());
                    proof {
                        assert(names_view(self.failures@) =~= names_view(
                            old(self).failures@,
                        ).push(name@));
                    }
                    BatchDecision::Continue
                } else {
                    BatchDecision::Abort
                }
            },
            StepResult::FatalFailure => BatchDecision::Abort,
        }
    }

    /// The batch result is failure exactly when some project was recorded.
    pub fn is_failure(&self) -> (r: bool)
        ensures
            r == (self.failures@.len() > 0),
    {
        self.failures.len() > 0
    }
}

/// One project's name and how its command ended.
pub struct BatchItem {
    pub name: String,
    pub result: StepResult,
}

/// The view of a batch item list.
pub open spec fn items_view(items: Seq<BatchItem>) -> Seq<(Seq<char>, StepResult)> {
    items.map_values(|it: BatchItem| (it.name@, it.result))
}

/// Runs the batch policy over the given per-project results, exactly as the
/// driving loop applies it one project at a time.
pub fn run_batch(keep_going: bool, items: &Vec<BatchItem>) -> (r: (usize, Vec<String>, bool))
    ensures
        r.0 as int == spec_batch(keep_going, items_view(items@)).0,
        names_view(r.1@) == spec_batch(keep_going, items_view(items@)).1,
        r.2 == spec_batch(keep_going, items_view(items@)).2,
{
    let mut runner = BatchRunner::new(keep_going);
    let mut processed: usize = 0;
    let mut i: usize = 0;
    let n = items.len();
    proof {
        assert(items_view(items@).skip(0) =~= items_view(items@));
        let t = spec_batch(keep_going, items_view(items@));
        assert(names_view(runner.failures@) + t.1 =~= t.1);
    }
    while i < n
        invariant
            n == items@.len(),
            i <= n,
            processed == i,
            runner.keep_going == keep_going,
            spec_batch(keep_going, items_view(items@)) == {
                let t = spec_batch(keep_going, items_view(items@).skip(i as int));
                (t.0 + i, names_view(runner.failures@) + t.1, t.2)
            },
        decreases n - i,
    {
        let ghost pre = names_view(runner.failures@);
        let ghost rest = items_view(items@).skip(i as int);
        proof {
            assert(rest.len() > 0);
            assert(rest[0] == (items@[i as int].name@, items@[i as int].result));
            assert(rest.drop_first() =~= items_view(items@).skip(i as int + 1));
        }
        let d = runner.record(items[i].name.as_str(), items[i].result);
        processed = processed + 1;
        i += 1;
        match d {
            BatchDecision::Continue => {
                proof {
                    if items@[i as int - 1].result == StepResult::ExitFailure {
                        assert(pre.push(items@[i as int - 1].name@) + spec_batch(
                            keep_going,
                            items_view(items@).skip(i as int),
                        ).1 =~= pre + (seq![items@[i as int - 1].name@] + spec_batch(
                            keep_going,
                            items_view(items@).skip(i as int),
                        ).1));
                    }
                }
            },
            BatchDecision::Abort => {
                proof {
                    assert(names_view(runner.failures@) + Seq::<Seq<char>>::empty()
                        =~= names_view(runner.failures@));
                }
                return (processed, runner.failures, true);
            },
        }
    }
    proof {
        assert(items_view(items@).skip(n as int) =~= Seq::<(Seq<char>, StepResult)>::empty());
        assert(names_view(runner.failures@) + Seq::<Seq<char>>::empty() =~= names_view(
            runner.failures@,
        ));
    }
    (processed, runner.failures, false)
}

/// The names of the projects whose command exited nonzero, in order.
pub open spec fn exit_failure_names(items: Seq<(Seq<char>, StepResult)>) -> Seq<Seq<char>>
    decreases items.len(),
{
    if items.len() == 0 {
        Seq::<Seq<char>>::empty()
    } else if items[0].1 == StepResult::ExitFailure {
        seq![items[0].0] + exit_failure_names(items.drop_first())
    } else {
        exit_failure_names(items.drop_first())
    }
}

/// Whether some step failed fatally.
pub open spec fn has_fatal(items: Seq<(Seq<char>, StepResult)>) -> bool {
    exists|i: int| 0 <= i < items.len() && items[i].1 == StepResult::FatalFailure
}

/// Keep-going batch semantics, the recording half: with keep-going enabled
/// and no fatal failure, the batch runs every project to the end, never
/// aborts, and its failure list holds exactly the projects whose command
/// exited nonzero, in order.
pub proof fn lemma_keep_going_semantics(items: Seq<(Seq<char>, StepResult)>)
    requires
        !has_fatal(items),
    ensures
        spec_batch(true, items).0 == items.len(),
        spec_batch(true, items).1 == exit_failure_names(items),
        !spec_batch(true, items).2,
    decreases items.len(),
{
    if items.len() == 0 {
    } else {
        assert(!has_fatal(items.drop_first())) by {
            assert(forall|i: int|
                0 <= i < items.drop_first().len() ==> items.drop_first()[i] == items[i + 1]);
        }
        lemma_keep_going_semantics(items.drop_first());
        assert(items[0].1 != StepResult::FatalFailure);
    }
}

/// The index of the first step that did not succeed, or the length when all
/// did.
pub open spec fn first_trouble(items: Seq<(Seq<char>, StepResult)>) -> int
    decreases items.len(),
{
    if items.len() == 0 {
        0int
    } else if items[0].1 != StepResult::Success {
        0int
    } else {
        1 + first_trouble(items.drop_first())
    }
}

/// Keep-going batch semantics, the fail-fast half: with keep-going disabled
/// the batch stops at the first failing project, records nothing, and
/// reports failure; when every command succeeds it runs them all.
pub proof fn lemma_fail_fast_semantics(items: Seq<(Seq<char>, StepResult)>)
    ensures
        first_trouble(items) == items.len() ==> spec_batch(false, items) == (
            items.len() as int,
            Seq::<Seq<char>>::empty(),
            false,
        ),
        first_trouble(items) < items.len() ==> spec_batch(false, items) == (
            first_trouble(items) + 1,
            Seq::<Seq<char>>::empty(),
            true,
        ),
        spec_batch(false, items).1 == Seq::<Seq<char>>::empty(),
    decreases items.len(),
{
    if items.len() == 0 {
    } else {
        lemma_fail_fast_semantics(items.drop_first());
        assert(first_trouble(items) <= items.len()) by {
            lemma_first_trouble_bound(items);
        }
    }
}

proof fn lemma_first_trouble_bound(items: Seq<(Seq<char>, StepResult)>)
    ensures
        0 <= first_trouble(items) <= items.len(),
    decreases items.len(),
{
    if items.len() == 0 {
    } else if items[0].1 != StepResult::Success {
    } else {
        lemma_first_trouble_bound(items.drop_first());
    }
}

} // verus!
