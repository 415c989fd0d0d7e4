//! The loop shared by the multi-item tools: items are handed out in order,
//! an empty input is refused, and a cancellation request is honoured before
//! each item. The caller performs the work the step names and reports back
//! whether cancellation was requested in the meantime.

use vstd::prelude::*;
use crate::error::AppError;
use crate::text::owned;

verus! {

/// What the loop does next.
#[derive(Clone, Debug, PartialEq, Eq)]
pub enum Step {
    /// Process the item with this 0-based index.
    Item { index: u32 },
    /// Every item has been handed out.
    Done { total: u32 },
    /// Stop with this error.
    Stop { error: AppError },
}

/// One entry of a batch's skipped list.
#[derive(Clone, Debug, PartialEq, Eq)]
pub struct SkippedFile {
    pub source: String,
    pub error: AppError,
}

/// What a batch does after a file failed.
#[derive(Clone, Debug, PartialEq, Eq)]
pub enum Verdict {
    /// The file failed on its own; it is in the skipped list; go on.
    Skipped,
    /// The whole batch ends with this error (cancellation).
    Abort { error: AppError },
}

/// Running totals of a skip-and-continue batch: successes (saturating),
/// the skipped files in input order, and the first successful output.
pub struct BatchTally {
    success_count: u32,
    skipped: Vec<SkippedFile>,
    first_output: Option<String>,
}

impl BatchTally {
    pub closed spec fn spec_successes(&self) -> u32 {
        self.success_count
    }

    pub closed spec fn spec_skipped(&self) -> Seq<SkippedFile> {
        self.skipped@
    }

    pub closed spec fn spec_first_output(&self) -> Option<Seq<char>> {
        match self.first_output {
            Some(s) => Some(s@),
            None => None,
        }
    }

    /// An empty tally.
    pub fn new() -> (t: BatchTally)
        ensures
            t.spec_successes() == 0,
            t.spec_skipped().len() == 0,
            t.spec_first_output() is None,
    {
        BatchTally { success_count: 0, skipped: Vec::new(), first_output: None }
    }

    /// Count a success; its output becomes the first output if there was none.
    pub fn record_success(&mut self, output: &str)
        ensures
            final(self).spec_successes() == (if old(self).spec_successes() == u32::MAX {
                u32::MAX as int
            } else {
                old(self).spec_successes() + 1
            }),
            final(self).spec_skipped() == old(self).spec_skipped(),
            final(self).spec_first_output() == (match old(self).spec_first_output() {
                Some(o) => Some(o),
                None => Some(output@),
            }),
    {
        if self.success_count < u32::MAX {
            self.success_count = self.success_count + 1;
        }
        if self.first_output.is_none() {
            self.first_output = Some(owned(output));
        }
    }

    /// Account for a failed file: a cancellation ends the batch and leaves
    /// the tally as it was; any other error skips the file.
    pub fn record_failure(&mut self, source: &str, error: AppError) -> (v: Verdict)
        ensures
            error is Cancelled ==> (v == (Verdict::Abort { error: AppError::Cancelled })
                && final(self).spec_skipped() == old(self).spec_skipped()),
            !(error is Cancelled) ==> (v == Verdict::Skipped && final(self).spec_skipped().len()
                == old(self).spec_skipped().len() + 1 && final(self).spec_skipped().drop_last()
                == old(self).spec_skipped() && final(self).spec_skipped().last().source@ == source@
                && final(self).spec_skipped().last().error == error),
            final(self).spec_successes() == old(self).spec_successes(),
            final(self).spec_first_output() == old(self).spec_first_output(),
    {
        match error {
            AppError::Cancelled => Verdict::Abort { error: AppError::Cancelled },
            other => {
                self.skipped.push(SkippedFile { source: owned(source), error: other });
                assert(self.skipped@.drop_last() =~= old(self).skipped@);
                Verdict::Skipped
            },
        }
    }

    /// Successes so far.
    pub fn success_count(&self) -> (r: u32)
        ensures
            r == self.spec_successes(),
    {
        self.success_count
    }

    /// Skipped files so far (saturating count).
    pub fn skip_count(&self) -> (r: u32)
        ensures
            r == (if self.spec_skipped().len() > u32::MAX { u32::MAX as int } else {
                self.spec_skipped().len() as int
            }),
    {
        if self.skipped.len() > u32::MAX as usize {
            u32::MAX
        } else {
            self.skipped.len() as u32
        }
    }

    /// Hand the totals over: successes, skipped files, first output.
    pub fn into_parts(self) -> (r: (u32, Vec<SkippedFile>, Option<String>))
        ensures
            r.0 == self.spec_successes(),
            r.1@ == self.spec_skipped(),
            (match r.2 {
                Some(o) => Some(o@),
                None => None,
            }) == self.spec_first_output(),
    {
        (self.success_count, self.skipped, self.first_output)
    }
}

/// Position in a run over `total` items.
pub struct ItemLoop {
    total: u32,
    next: u32,
}

/// The step a loop at `next` of `total` takes, and where it is afterwards.
pub open spec fn step_spec(total: u32, next: u32, cancelled: bool) -> (Step, u32) {
    if next >= total {
        (Step::Done { total }, next)
    } else if cancelled {
        (Step::Stop { error: AppError::Cancelled }, next)
    } else {
        (Step::Item { index: next }, (next + 1) as u32)
    }
}

/// The steps of a loop at `next` of `total` under the successive
/// cancellation answers `cancels`, up to and including the first step that
/// is not an item.
pub open spec fn run_spec(total: u32, next: u32, cancels: Seq<bool>) -> Seq<Step>
    decreases cancels.len(),
{
    if cancels.len() == 0 {
        Seq::<Step>::empty()
    } else {
        let (s, n) = step_spec(total, next, cancels[0]);
        if s is Item {
            seq![s] + run_spec(total, n, cancels.drop_first())
        } else {
            seq![s]
        }
    }
}

impl ItemLoop {
    pub closed spec fn spec_total(&self) -> u32 {
        self.total
    }

    /// Items handed out so far.
    pub closed spec fn spec_next(&self) -> u32 {
        self.next
    }

    #[verifier::type_invariant]
    spec fn wf(&self) -> bool {
        0 < self.total && self.next <= self.total
    }

    /// Start a loop over `total` items; no items is refused with
    /// `ProcessingFailed` carrying `empty_detail`.
    pub fn start(total: u32, empty_detail: &str) -> (r: Result<ItemLoop, AppError>)
        ensures
            total == 0 ==> (r matches Err(AppError::ProcessingFailed { detail })
                && detail@ == empty_detail@),
            total > 0 ==> (r matches Ok(l) && l.spec_total() == total && l.spec_next() == 0),
    {
        if total == 0 {
            return Err(AppError::ProcessingFailed { detail: owned(empty_detail) });
        }
        Ok(ItemLoop { total, next: 0 })
    }

    /// The next step: done once every item went out, stop if cancellation
    /// was requested, else the next item.
    pub fn step(&mut self, cancelled: bool) -> (s: Step)
        ensures
            final(self).spec_total() == old(self).spec_total(),
            (s, final(self).spec_next()) == step_spec(
                old(self).spec_total(),
                old(self).spec_next(),
                cancelled,
            ),
    {
        proof {
            use_type_invariant(&*self);
        }
        if self.next >= self.total {
            return Step::Done { total: self.total };
        }
        if cancelled {
            return Step::Stop { error: AppError::Cancelled };
        }
        let index = self.next;
        self.next = self.next + 1;
        Step::Item { index }
    }
}

/// A skip-and-continue batch: the item loop and its tally together. Every
/// item handed out is answered by exactly one outcome (a success or a
/// failure) before the loop steps again, so the tally accounts for each
/// handed-out item once, and a finished batch has as many successes and
/// skips together as it had items.
pub struct BatchRun {
    items: ItemLoop,
    tally: BatchTally,
    awaiting: bool,
}

impl BatchRun {
    /// The tally accounts for every item handed out, the awaited one
    /// aside. Every batch keeps this from `start` on.
    pub closed spec fn accounted(&self) -> bool {
        self.tally.spec_successes() + self.tally.spec_skipped().len() + (if self.awaiting {
            1int
        } else {
            0int
        }) == self.items.spec_next()
    }

    pub closed spec fn spec_total(&self) -> u32 {
        self.items.spec_total()
    }

    /// Items handed out so far.
    pub closed spec fn spec_next(&self) -> u32 {
        self.items.spec_next()
    }

    /// An item was handed out and its outcome is not recorded yet.
    pub closed spec fn spec_awaiting(&self) -> bool {
        self.awaiting
    }

    pub closed spec fn spec_successes(&self) -> u32 {
        self.tally.spec_successes()
    }

    pub closed spec fn spec_skipped(&self) -> Seq<SkippedFile> {
        self.tally.spec_skipped()
    }

    pub closed spec fn spec_first_output(&self) -> Option<Seq<char>> {
        self.tally.spec_first_output()
    }

    /// Start a batch over `total` items; no items is refused with
    /// `ProcessingFailed` carrying `empty_detail`.
    pub fn start(total: u32, empty_detail: &str) -> (r: Result<BatchRun, AppError>)
        ensures
            total == 0 ==> (r matches Err(AppError::ProcessingFailed { detail })
                && detail@ == empty_detail@),
            total > 0 ==> (r matches Ok(b) && b.spec_total() == total && b.spec_next() == 0
                && !b.spec_awaiting() && b.spec_successes() == 0 && b.spec_skipped().len() == 0
                && b.spec_first_output() is None && b.accounted()),
    {
        let items = ItemLoop::start(total, empty_detail)?;
        Ok(BatchRun { items, tally: BatchTally::new(), awaiting: false })
    }

    /// The next step, once the previous item's outcome is recorded: done
    /// once every item went out, stop if cancellation was requested, else
    /// the next item, whose outcome is then awaited. When done, successes
    /// and skips together are the number of items.
    pub fn step(&mut self, cancelled: bool) -> (s: Step)
        requires
            old(self).accounted(),
            !old(self).spec_awaiting(),
        ensures
            final(self).accounted(),
            final(self).spec_total() == old(self).spec_total(),
            (s, final(self).spec_next()) == step_spec(
                old(self).spec_total(),
                old(self).spec_next(),
                cancelled,
            ),
            final(self).spec_awaiting() == (s is Item),
            final(self).spec_successes() == old(self).spec_successes(),
            final(self).spec_skipped() == old(self).spec_skipped(),
            final(self).spec_first_output() == old(self).spec_first_output(),
            s is Done ==> final(self).spec_successes() + final(self).spec_skipped().len()
                == final(self).spec_total(),
    {
        let s = self.items.step(cancelled);
        self.awaiting = match s {
            Step::Item { .. } => true,
            _ => false,
        };
        proof {
            use_type_invariant(&self.items);
        }
        s
    }

    /// The awaited item succeeded with this output.
    pub fn record_success(&mut self, output: &str)
        requires
            old(self).accounted(),
            old(self).spec_awaiting(),
        ensures
            final(self).accounted(),
            !final(self).spec_awaiting(),
            final(self).spec_total() == old(self).spec_total(),
            final(self).spec_next() == old(self).spec_next(),
            final(self).spec_successes() == old(self).spec_successes() + 1,
            final(self).spec_skipped() == old(self).spec_skipped(),
            final(self).spec_first_output() == (match old(self).spec_first_output() {
                Some(o) => Some(o),
                None => Some(output@),
            }),
    {
        proof {
            use_type_invariant(&self.items);
        }
        self.tally.record_success(output);
        self.awaiting = false;
    }

    /// The awaited item failed with `error`: a cancellation ends the batch
    /// (the item stays unanswered); any other error skips the file.
    pub fn record_failure(&mut self, source: &str, error: AppError) -> (v: Verdict)
        requires
            old(self).accounted(),
            old(self).spec_awaiting(),
        ensures
            final(self).accounted(),
            final(self).spec_total() == old(self).spec_total(),
            final(self).spec_next() == old(self).spec_next(),
            final(self).spec_successes() == old(self).spec_successes(),
            final(self).spec_first_output() == old(self).spec_first_output(),
            error is Cancelled ==> (v == (Verdict::Abort { error: AppError::Cancelled })
                && final(self).spec_skipped() == old(self).spec_skipped() && final(self).spec_awaiting()),
            !(error is Cancelled) ==> (v == Verdict::Skipped && !final(self).spec_awaiting()
                && final(self).spec_skipped() == old(self).spec_skipped().push(
                (SkippedFile { source: final(self).spec_skipped().last().source, error }),
            ) && final(self).spec_skipped().last().source@ == source@),
    {
        let cancel = match error {
            AppError::Cancelled => true,
            _ => false,
        };
        let v = self.tally.record_failure(source, error);
        self.awaiting = cancel;
        proof {
            if !cancel {
                assert(self.tally.spec_skipped() =~= old(self).spec_skipped().push(
                    self.tally.spec_skipped().last(),
                ));
            }
        }
        v
    }

    /// Hand the totals over: successes, skipped files, first output. When
    /// no outcome is awaited they account for every item handed out.
    pub fn into_parts(self) -> (r: (u32, Vec<SkippedFile>, Option<String>))
        requires
            self.accounted(),
        ensures
            r.0 == self.spec_successes(),
            r.1@ == self.spec_skipped(),
            (match r.2 {
                Some(o) => Some(o@),
                None => None,
            }) == self.spec_first_output(),
            !self.spec_awaiting() ==> r.0 + r.1@.len() == self.spec_next(),
    {
        let BatchRun { items: _, tally, awaiting: _ } = self;
        tally.into_parts()
    }
}

/// Without cancellation, a fresh loop hands out items `0, 1, …, total-1`
/// in order and then reports that it is done.
pub proof fn lemma_uncancelled_run_visits_all_in_order(total: u32, next: u32, cancels: Seq<bool>)
    requires
        next <= total,
        cancels.len() == total - next + 1,
        forall|i: int| 0 <= i < cancels.len() ==> !cancels[i],
    ensures
        run_spec(total, next, cancels).len() == total - next + 1,
        forall|i: int|
            0 <= i < total - next ==> run_spec(total, next, cancels)[i] == (Step::Item {
                index: (next + i) as u32,
            }),
        run_spec(total, next, cancels)[total - next] == (Step::Done { total }),
    decreases total - next,
{
    if next < total {
        let rest = cancels.drop_first();
        lemma_uncancelled_run_visits_all_in_order(total, (next + 1) as u32, rest);
        let r = run_spec(total, next, cancels);
        assert(r == seq![Step::Item { index: next }] + run_spec(total, (next + 1) as u32, rest));
        assert forall|i: int| 0 <= i < total - next implies r[i] == (Step::Item {
            index: (next + i) as u32,
        }) by {
            if i > 0 {
                assert(r[i] == run_spec(total, (next + 1) as u32, rest)[i - 1]);
            }
        }
    }
}

/// Once cancellation is requested, the loop stops at that step with
/// `Cancelled` (unless every item had already gone out) and hands out
/// nothing more.
pub proof fn lemma_cancel_stops_run(total: u32, next: u32, cancels: Seq<bool>)
    requires
        next < total,
        cancels.len() > 0,
        cancels[0],
    ensures
        run_spec(total, next, cancels) == seq![Step::Stop { error: AppError::Cancelled }],
{
}

} // verus!
