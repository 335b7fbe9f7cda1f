use crate::options::GENERIC_FAILURE;
use crate::process::{exit_code_of, ProcessFailure, ProcessFailureView};
use crate::target::{TargetId, TargetIdView};
use crate::text::{decimal, decimal_text};
use crate::timing::TimingSummary;
use vstd::prelude::*;

verus! {

/// How a run ended, by the number of targets that failed.
#[derive(Clone, Copy, Debug, PartialEq, Eq, Structural)]
pub enum FailureMode {
    /// No target failed.
    NoFailure,
    /// Exactly one target failed.
    SingleFailure,
    /// Two or more targets failed.
    MultipleFailures,
}

/// The mode that goes with a number of failures.
pub open spec fn mode_of(failures: nat) -> FailureMode {
    if failures == 0 {
        FailureMode::NoFailure
    } else if failures == 1 {
        FailureMode::SingleFailure
    } else {
        FailureMode::MultipleFailures
    }
}

/// The timing summary of one target.
#[derive(Clone, Debug, PartialEq, Eq)]
pub struct TargetTiming {
    /// Position of the target in execution order.
    pub position: usize,
    pub target: TargetId,
    pub summary: TimingSummary,
}

/// Mathematical value of a `TargetTiming`.
pub struct TargetTimingView {
    pub position: nat,
    pub target: TargetIdView,
    pub summary: TimingSummary,
}

impl View for TargetTiming {
    type V = TargetTimingView;

    open spec fn view(&self) -> TargetTimingView {
        TargetTimingView {
            position: self.position as nat,
            target: self.target@,
            summary: self.summary,
        }
    }
}

impl DeepView for TargetTiming {
    type V = TargetTimingView;

    open spec fn deep_view(&self) -> TargetTimingView {
        self@
    }
}

/// What a whole run came to: the failures in the order in which they
/// happened, and the timing summaries in the order in which the targets ran.
#[derive(Clone, Debug, PartialEq, Eq)]
pub struct AggregatedResult {
    pub failures: Vec<ProcessFailure>,
    pub timings: Vec<TargetTiming>,
}

/// Mathematical value of an `AggregatedResult`.
pub struct AggregatedResultView {
    pub failures: Seq<ProcessFailureView>,
    pub timings: Seq<TargetTimingView>,
}

impl View for AggregatedResult {
    type V = AggregatedResultView;

    open spec fn view(&self) -> AggregatedResultView {
        AggregatedResultView {
            failures: self.failures.deep_view(),
            timings: self.timings.deep_view(),
        }
    }
}

/// The result of a run in which nothing has happened yet.
pub open spec fn empty_result() -> AggregatedResultView {
    AggregatedResultView { failures: Seq::empty(), timings: Seq::empty() }
}

impl AggregatedResultView {
    pub open spec fn mode(self) -> FailureMode {
        mode_of(self.failures.len())
    }

    /// Zero for success. With one failure, the exit code of its process where
    /// it has one other than zero. In every other case the generic code.
    pub open spec fn exit_code(self) -> i32 {
        if self.failures.len() == 0 {
            0
        } else if self.failures.len() == 1 {
            match exit_code_of(self.failures[0].status) {
                Some(c) => if c != 0 {
                    c
                } else {
                    GENERIC_FAILURE
                },
                None => GENERIC_FAILURE,
            }
        } else {
            GENERIC_FAILURE
        }
    }

    /// What to tell the user: nothing on success, the hint of the failure
    /// where there is one, the number of failures where there are more.
    pub open spec fn message(self) -> Option<Seq<char>> {
        if self.failures.len() == 0 {
            None
        } else if self.failures.len() == 1 {
            Some(self.failures[0].hint)
        } else {
            Some(decimal_text(self.failures.len()) + " test targets failed"@)
        }
    }

    /// The timing summary of `id`, where one was taken.
    pub open spec fn timing_of(self, id: TargetIdView) -> Option<TimingSummary> {
        let p = timing_position(self.timings, id);
        if p < self.timings.len() {
            Some(self.timings[p].summary)
        } else {
            None
        }
    }
}

/// Position of the first timing summary of `id`, or the number of summaries
/// where there is none.
pub open spec fn timing_position(timings: Seq<TargetTimingView>, id: TargetIdView) -> int
    decreases timings.len(),
{
    if timings.len() == 0 || timings[0].target == id {
        0
    } else {
        1 + timing_position(timings.drop_first(), id)
    }
}

/// The exit code is zero exactly where no target failed.
pub proof fn lemma_exit_code_zero_iff_success(r: AggregatedResultView)
    ensures
        r.exit_code() == 0 <==> r.mode() == FailureMode::NoFailure,
        r.mode() == FailureMode::MultipleFailures ==> r.exit_code() == GENERIC_FAILURE,
        r.message() is None <==> r.mode() == FailureMode::NoFailure,
{
}

/// `timing_position` finds the first summary of `id`.
pub proof fn lemma_timing_position(timings: Seq<TargetTimingView>, id: TargetIdView)
    ensures
        0 <= timing_position(timings, id) <= timings.len(),
        forall|i: int| 0 <= i < timing_position(timings, id) ==> timings[i].target != id,
        timing_position(timings, id) < timings.len() ==> timings[timing_position(
            timings,
            id,
        )].target == id,
    decreases timings.len(),
{
    if timings.len() > 0 && timings[0].target != id {
        let rest = timings.drop_first();
        lemma_timing_position(rest, id);
        assert forall|i: int| 0 <= i < timing_position(timings, id) implies timings[i].target
            != id by {
            if i > 0 {
                assert(rest[i - 1] == timings[i]);
            }
        }
    }
}

impl AggregatedResult {
    pub fn new() -> (r: AggregatedResult)
        ensures
            r@ == empty_result(),
    {
        let r = AggregatedResult { failures: Vec::new(), timings: Vec::new() };
        assert(r.failures.deep_view() =~= Seq::empty());
        assert(r.timings.deep_view() =~= Seq::empty());
        r
    }

    /// Classifies the run by its number of failures.
    pub fn mode(&self) -> (m: FailureMode)
        ensures
            m == self@.mode(),
            self@.failures.len() == 0 ==> m == FailureMode::NoFailure,
            self@.failures.len() == 1 ==> m == FailureMode::SingleFailure,
            self@.failures.len() >= 2 ==> m == FailureMode::MultipleFailures,
    {
        let n = self.failures.len();
        if n == 0 {
            FailureMode::NoFailure
        } else if n == 1 {
            FailureMode::SingleFailure
        } else {
            FailureMode::MultipleFailures
        }
    }

    /// Whether no target failed.
    pub fn is_success(&self) -> (r: bool)
        ensures
            r == (self@.mode() == FailureMode::NoFailure),
    {
        self.failures.len() == 0
    }

    /// The failure, where exactly one target failed.
    pub fn single_failure(&self) -> (f: Option<&ProcessFailure>)
        ensures
            f is Some <==> self@.mode() == FailureMode::SingleFailure,
            f matches Some(failure) ==> failure@ == self@.failures[0],
    {
        if self.failures.len() == 1 {
            Some(&self.failures[0])
        } else {
            None
        }
    }

    /// Adds a failure behind those that happened before.
    pub fn record_failure(&mut self, failure: ProcessFailure)
        ensures
            final(self)@.failures == old(self)@.failures.push(failure@),
            final(self)@.timings == old(self)@.timings,
    {
        self.failures.push(failure);
        assert(self.failures.deep_view() =~= old(self).failures.deep_view().push(failure@));
    }

    /// Adds the timing summary of a target behind those taken before.
    pub fn record_timing(&mut self, timing: TargetTiming)
        ensures
            final(self)@.timings == old(self)@.timings.push(timing@),
            final(self)@.failures == old(self)@.failures,
    {
        self.timings.push(timing);
        assert(self.timings.deep_view() =~= old(self).timings.deep_view().push(timing@));
    }

    /// See `AggregatedResultView::timing_of`.
    pub fn timing_of(&self, id: &TargetId) -> (summary: Option<TimingSummary>)
        ensures
            summary == self@.timing_of(id@),
    {
        let n = self.timings.len();
        let mut i: usize = 0;
        assert(self@.timings.skip(0) =~= self@.timings);
        while i < n
            invariant
                i <= n,
                n == self.timings.len(),
                timing_position(self@.timings, id@) == i + timing_position(
                    self@.timings.skip(i as int),
                    id@,
                ),
            decreases n - i,
        {
            let ghost rest = self@.timings.skip(i as int);
            assert(rest[0] == self.timings[i as int]@);
            assert(rest.drop_first() =~= self@.timings.skip(i + 1));
            if self.timings[i].target.same(id) {
                return Some(self.timings[i].summary);
            }
            i += 1;
        }
        None
    }

    /// See `AggregatedResultView::exit_code`.
    pub fn exit_code(&self) -> (code: i32)
        ensures
            code == self@.exit_code(),
            code == 0 <==> self@.failures.len() == 0,
    {
        if self.failures.len() == 1 {
            match self.failures[0].exit_code() {
                Some(c) => if c != 0 {
                    c
                } else {
                    GENERIC_FAILURE
                },
                None => GENERIC_FAILURE,
            }
        } else if self.failures.len() == 0 {
            0
        } else {
            GENERIC_FAILURE
        }
    }

    /// See `AggregatedResultView::message`.
    pub fn message(&self) -> (text: Option<String>)
        ensures
            match text {
                Some(t) => self@.message() == Some(t@),
                None => self@.message() is None,
            },
    {
        let n = self.failures.len();
        if n == 0 {
            None
        } else if n == 1 {
            Some(self.failures[0].hint.clone())
        } else {
            let mut t = decimal(n);
            t.append(" test targets failed");
            Some(t)
        }
    }
}

} // verus!
