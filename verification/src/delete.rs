//! Deleting many files: the bookkeeping of a batch.
//!
//! The runtime removes the files; the batch says which file is next,
//! counts the successes and collects the failures. Every path is attempted:
//! a failure never ends the batch.

use vstd::prelude::*;
use crate::format_size::{push_two_decimals, two_decimals};
use crate::text::{decimal, push_decimal, push_str, string_of, views};

verus! {

/// A file that could not be deleted, and why.
#[derive(Clone, Debug, PartialEq, Eq)]
pub struct DeleteFailure {
    pub path: String,
    pub reason: String,
}

/// A failure with its texts as sequences of characters.
pub struct FailureView {
    pub path: Seq<char>,
    pub reason: Seq<char>,
}

impl View for DeleteFailure {
    type V = FailureView;

    open spec fn view(&self) -> FailureView {
        FailureView { path: self.path@, reason: self.reason@ }
    }
}

/// The views of a list of failures.
pub open spec fn failure_views(failures: Seq<DeleteFailure>) -> Seq<FailureView> {
    Seq::new(failures.len(), |i: int| failures[i]@)
}

/// The state of a batch as mathematics.
pub struct BatchModel {
    /// The paths to delete, in the order of the attempts.
    pub paths: Seq<Seq<char>>,
    /// For each path that was attempted, why it failed, if it failed.
    pub outcomes: Seq<Option<Seq<char>>>,
}

/// How many of `outcomes` are successes.
pub open spec fn successes_of(outcomes: Seq<Option<Seq<char>>>) -> nat
    decreases outcomes.len(),
{
    if outcomes.len() == 0 {
        0
    } else {
        successes_of(outcomes.drop_last()) + if outcomes.last() is None {
            1nat
        } else {
            0nat
        }
    }
}

/// The failures among `outcomes`, each with its path, in order.
pub open spec fn failures_of(paths: Seq<Seq<char>>, outcomes: Seq<Option<Seq<char>>>) -> Seq<
    FailureView,
>
    decreases outcomes.len(),
{
    if outcomes.len() == 0 {
        Seq::<FailureView>::empty()
    } else {
        let before = failures_of(paths, outcomes.drop_last());
        match outcomes.last() {
            Some(reason) => before.push(
                FailureView { path: paths[outcomes.len() - 1], reason },
            ),
            None => before,
        }
    }
}

/// Every attempt is either a success or a failure.
pub proof fn lemma_every_attempt_counts(paths: Seq<Seq<char>>, outcomes: Seq<Option<Seq<char>>>)
    ensures
        successes_of(outcomes) + failures_of(paths, outcomes).len() == outcomes.len(),
    decreases outcomes.len(),
{
    if outcomes.len() > 0 {
        lemma_every_attempt_counts(paths, outcomes.drop_last());
    }
}

impl BatchModel {
    /// What holds of every state that a batch can reach.
    pub open spec fn inv(self) -> bool {
        self.outcomes.len() <= self.paths.len()
    }

    /// Every path has been attempted.
    pub open spec fn complete(self) -> bool {
        self.outcomes.len() == self.paths.len()
    }
}

/// The text of one failure in a report.
pub open spec fn failure_line(failure: FailureView) -> Seq<char> {
    failure.path + ": "@ + failure.reason
}

/// The lines of the failures, parted by line ends.
pub open spec fn failure_lines(failures: Seq<FailureView>) -> Seq<char>
    decreases failures.len(),
{
    if failures.len() == 0 {
        Seq::<char>::empty()
    } else if failures.len() == 1 {
        failure_line(failures[0])
    } else {
        failure_lines(failures.drop_last()) + "\n"@ + failure_line(failures.last())
    }
}

/// The report of a batch: the counts and the failures when there are
/// failures, else the count and the time taken, in seconds with two
/// decimals.
pub open spec fn report_text(
    successes: nat,
    failures: Seq<FailureView>,
    elapsed: nat,
) -> Seq<char> {
    if failures.len() > 0 {
        "成功删除 "@ + decimal(successes) + " 个文件，失败 "@ + decimal(failures.len()) + " 个：\n"@
            + failure_lines(failures)
    } else {
        "成功删除 "@ + decimal(successes) + " 个文件，耗时 "@ + two_decimals(elapsed) + " 秒"@
    }
}

/// A batch of deletions.
pub struct BatchDelete {
    paths: Vec<String>,
    successes: usize,
    failures: Vec<DeleteFailure>,
    attempted: usize,
    outcomes: Ghost<Seq<Option<Seq<char>>>>,
}

impl View for BatchDelete {
    type V = BatchModel;

    closed spec fn view(&self) -> BatchModel {
        BatchModel { paths: views(self.paths@), outcomes: self.outcomes@ }
    }
}

impl BatchDelete {
    /// The batch's state is one that a batch can reach.
    pub closed spec fn wf(&self) -> bool {
        &&& self@.inv()
        &&& self.attempted == self.outcomes@.len()
        &&& self.successes == successes_of(self.outcomes@)
        &&& failure_views(self.failures@) == failures_of(self@.paths, self.outcomes@)
    }

    /// The state of a batch is one that a batch can reach.
    pub proof fn lemma_reachable(&self)
        requires
            self.wf(),
        ensures
            self@.inv(),
    {
    }

    /// A batch that is to delete `paths`, in this order.
    pub fn new(paths: Vec<String>) -> (batch: BatchDelete)
        ensures
            batch.wf(),
            batch@.paths == views(paths@),
            batch@.outcomes.len() == 0,
    {
        let batch = BatchDelete {
            paths,
            successes: 0,
            failures: Vec::new(),
            attempted: 0,
            outcomes: Ghost(Seq::empty()),
        };
        assert(failure_views(batch.failures@) =~= failures_of(batch@.paths, batch.outcomes@));
        batch
    }

    /// The path to delete next; `None` when every path has been attempted.
    pub fn next_path(&self) -> (path: Option<&String>)
        requires
            self.wf(),
        ensures
            path is None <==> self@.complete(),
            path matches Some(p) ==> p@ == self@.paths[self@.outcomes.len() as int],
    {
        if self.attempted < self.paths.len() {
            Some(&self.paths[self.attempted])
        } else {
            None
        }
    }

    /// Takes the outcome of deleting the next path: `None` when the file is
    /// gone, else why it is not. Returns whether a path was waiting for an
    /// outcome; where none was, nothing changes.
    pub fn record(&mut self, failure: Option<String>) -> (taken: bool)
        requires
            old(self).wf(),
        ensures
            final(self).wf(),
            final(self)@.paths == old(self)@.paths,
            taken == !old(self)@.complete(),
            final(self)@.outcomes == if taken {
                old(self)@.outcomes.push(path_reason(failure))
            } else {
                old(self)@.outcomes
            },
    {
        if self.attempted >= self.paths.len() {
            return false;
        }
        let ghost before = self.outcomes@;
        let ghost outcome = path_reason(failure);
        proof {
            lemma_every_attempt_counts(self@.paths, before);
            assert(before.push(outcome).drop_last() =~= before);
        }
        match failure {
            Some(reason) => {
                let ghost listed = self.failures@;
                let failure = DeleteFailure { path: self.paths[self.attempted].clone(), reason };
                self.failures.push(failure);
                assert(failure_views(self.failures@) =~= failure_views(listed).push(failure@));
            },
            None => {
                self.successes = self.successes + 1;
            },
        }
        self.attempted = self.attempted + 1;
        self.outcomes = Ghost(before.push(outcome));
        true
    }

    /// How many files were deleted.
    pub fn successes(&self) -> (n: usize)
        requires
            self.wf(),
        ensures
            n == successes_of(self@.outcomes),
    {
        self.successes
    }

    /// The files that could not be deleted, in the order of the attempts.
    pub fn failures(&self) -> (failures: &Vec<DeleteFailure>)
        requires
            self.wf(),
        ensures
            failure_views(failures@) == failures_of(self@.paths, self@.outcomes),
    {
        &self.failures
    }

    /// The report of the batch for the consumer. `elapsed` is the time the
    /// batch took, in hundredths of a second.
    pub fn report(&self, elapsed: u64) -> (text: String)
        requires
            self.wf(),
        ensures
            text@ == report_text(
                successes_of(self@.outcomes),
                failures_of(self@.paths, self@.outcomes),
                elapsed as nat,
            ),
    {
        let mut chars: Vec<char> = Vec::new();
        push_str(&mut chars, "成功删除 ");
        push_decimal(&mut chars, self.successes as u64);
        if self.failures.len() > 0 {
            push_str(&mut chars, " 个文件，失败 ");
            push_decimal(&mut chars, self.failures.len() as u64);
            push_str(&mut chars, " 个：\n");
            let ghost head = chars@;
            let ghost all = failure_views(self.failures@);
            let mut i: usize = 0;
            while i < self.failures.len()
                invariant
                    i <= self.failures.len(),
                    all == failure_views(self.failures@),
                    chars@ == head + failure_lines(all.take(i as int)),
                decreases self.failures.len() - i,
            {
                proof {
                    assert(all.take(i + 1).drop_last() =~= all.take(i as int));
                    assert(all.take(i + 1).last() == self.failures@[i as int]@);
                    if i == 0 {
                        assert(all.take(1)[0] == all.take(1).last());
                    }
                }
                if i > 0 {
                    push_str(&mut chars, "\n");
                }
                push_str(&mut chars, self.failures[i].path.as_str());
                push_str(&mut chars, ": ");
                push_str(&mut chars, self.failures[i].reason.as_str());
                assert(chars@ =~= head + failure_lines(all.take(i + 1)));
                i += 1;
            }
            assert(all.take(i as int) =~= all);
        } else {
            push_str(&mut chars, " 个文件，耗时 ");
            push_two_decimals(&mut chars, elapsed);
            push_str(&mut chars, " 秒");
        }
        assert(chars@ =~= report_text(
            successes_of(self@.outcomes),
            failures_of(self@.paths, self@.outcomes),
            elapsed as nat,
        ));
        string_of(&chars)
    }
}

/// The reason of a failure as a sequence of characters.
pub open spec fn path_reason(failure: Option<String>) -> Option<Seq<char>> {
    match failure {
        Some(reason) => Some(reason@),
        None => None,
    }
}

} // verus!
