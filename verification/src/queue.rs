//! The job queue and its companion idempotency ledger.
//!
//! The transport is an at-least-once FIFO: jobs are appended on one side and
//! taken from the other.  The ledger is a durable key-to-seen mapping the
//! producer consults before pushing, so that one chain transaction enqueues
//! at most one confirmation job even across restarts.  The boundary that
//! talks to the real transport mirrors these operations one for one.

use vstd::prelude::*;

verus! {

/// A generic payment job, as the queue carries it.
pub struct PaymentJob {
    pub job_id: String,
    pub amount: i64,
    pub memo: Option<String>,
    pub sender: Option<String>,
}

/// Mathematical image of a `PaymentJob`.
pub struct PaymentJobV {
    pub job_id: Seq<char>,
    pub amount: int,
    pub memo: Option<Seq<char>>,
    pub sender: Option<Seq<char>>,
}

impl View for PaymentJob {
    type V = PaymentJobV;

    open spec fn view(&self) -> PaymentJobV {
        PaymentJobV {
            job_id: self.job_id@,
            amount: self.amount as int,
            memo: self.memo.deep_view(),
            sender: self.sender.deep_view(),
        }
    }
}

/// A confirmation job, as the queue carries it: which payment request to
/// confirm, and the on-chain facts to record.  Its idempotency key is the
/// transaction signature.
pub struct ConfirmationJob {
    pub payment_id: String,
    pub memo: String,
    pub sender_address: String,
    pub tx_sig: String,
    pub amount_lamports: i64,
    pub paid_at: Option<i64>,
}

/// Mathematical image of a `ConfirmationJob`.
pub struct ConfirmationJobV {
    pub payment_id: Seq<char>,
    pub memo: Seq<char>,
    pub sender_address: Seq<char>,
    pub tx_sig: Seq<char>,
    pub amount_lamports: int,
    pub paid_at: Option<int>,
}

impl View for ConfirmationJob {
    type V = ConfirmationJobV;

    open spec fn view(&self) -> ConfirmationJobV {
        ConfirmationJobV {
            payment_id: self.payment_id@,
            memo: self.memo@,
            sender_address: self.sender_address@,
            tx_sig: self.tx_sig@,
            amount_lamports: self.amount_lamports as int,
            paid_at: crate::models::opt_int(self.paid_at),
        }
    }
}

/// Mathematical image of the queue: both job lines in order, and the set of
/// ledger keys marked processed.
pub struct JobQueueV {
    pub payment_jobs: Seq<PaymentJobV>,
    pub confirmation_jobs: Seq<ConfirmationJobV>,
    pub marked: Set<Seq<char>>,
}

/// The job queue with its idempotency ledger.
pub struct JobQueue {
    payment_jobs: Vec<PaymentJob>,
    confirmation_jobs: Vec<ConfirmationJob>,
    marked: Vec<String>,
}

impl View for JobQueue {
    type V = JobQueueV;

    closed spec fn view(&self) -> JobQueueV {
        JobQueueV {
            payment_jobs: self.payment_jobs@.map_values(|j: PaymentJob| j@),
            confirmation_jobs: self.confirmation_jobs@.map_values(|j: ConfirmationJob| j@),
            marked: self.marked@.map_values(|s: String| s@).to_set(),
        }
    }
}

impl JobQueue {
    /// An empty queue with an empty ledger.
    pub fn new() -> (q: Self)
        ensures
            q@.payment_jobs == Seq::<PaymentJobV>::empty(),
            q@.confirmation_jobs == Seq::<ConfirmationJobV>::empty(),
            q@.marked == Set::<Seq<char>>::empty(),
    {
        let q = JobQueue { payment_jobs: Vec::new(), confirmation_jobs: Vec::new(), marked: Vec::new() };
        proof {
            assert(q@.payment_jobs =~= Seq::<PaymentJobV>::empty());
            assert(q@.confirmation_jobs =~= Seq::<ConfirmationJobV>::empty());
            assert(q@.marked =~= Set::<Seq<char>>::empty());
        }
        q
    }

    /// Appends a payment job.
    pub fn push_payment_job(&mut self, job: PaymentJob)
        ensures
            final(self)@.payment_jobs == old(self)@.payment_jobs.push(job@),
            final(self)@.confirmation_jobs == old(self)@.confirmation_jobs,
            final(self)@.marked == old(self)@.marked,
    {
        let ghost pre = self@;
        self.payment_jobs.push(job);
        proof {
            assert(self@.payment_jobs =~= pre.payment_jobs.push(job@));
            assert(self@.marked =~= pre.marked);
        }
    }

    /// Takes the oldest payment job, if any.
    pub fn pop_payment_job(&mut self) -> (r: Option<PaymentJob>)
        ensures
            final(self)@.confirmation_jobs == old(self)@.confirmation_jobs,
            final(self)@.marked == old(self)@.marked,
            old(self)@.payment_jobs.len() == 0 ==> r is None && final(self)@.payment_jobs == old(
                self,
            )@.payment_jobs,
            old(self)@.payment_jobs.len() > 0 ==> (r matches Some(j) && j@ == old(
                self,
            )@.payment_jobs[0] && final(self)@.payment_jobs == old(self)@.payment_jobs.drop_first()),
    {
        if self.payment_jobs.len() == 0 {
            return None;
        }
        let ghost pre = self@;
        let j = self.payment_jobs.remove(0);
        proof {
            assert(self@.payment_jobs =~= pre.payment_jobs.drop_first());
            assert(self@.marked =~= pre.marked);
        }
        Some(j)
    }

    /// Appends a confirmation job.
    pub fn push_confirmation_job(&mut self, job: ConfirmationJob)
        ensures
            final(self)@.confirmation_jobs == old(self)@.confirmation_jobs.push(job@),
            final(self)@.payment_jobs == old(self)@.payment_jobs,
            final(self)@.marked == old(self)@.marked,
    {
        let ghost pre = self@;
        self.confirmation_jobs.push(job);
        proof {
            assert(self@.confirmation_jobs =~= pre.confirmation_jobs.push(job@));
            assert(self@.marked =~= pre.marked);
        }
    }

    /// Takes the oldest confirmation job, if any.  The real transport
    /// blocks instead of answering `None`; the loop around it decides.
    pub fn pop_confirmation_job(&mut self) -> (r: Option<ConfirmationJob>)
        ensures
            final(self)@.payment_jobs == old(self)@.payment_jobs,
            final(self)@.marked == old(self)@.marked,
            old(self)@.confirmation_jobs.len() == 0 ==> r is None && final(self)@.confirmation_jobs
                == old(self)@.confirmation_jobs,
            old(self)@.confirmation_jobs.len() > 0 ==> (r matches Some(j) && j@ == old(
                self,
            )@.confirmation_jobs[0] && final(self)@.confirmation_jobs == old(
                self,
            )@.confirmation_jobs.drop_first()),
    {
        if self.confirmation_jobs.len() == 0 {
            return None;
        }
        let ghost pre = self@;
        let j = self.confirmation_jobs.remove(0);
        proof {
            assert(self@.confirmation_jobs =~= pre.confirmation_jobs.drop_first());
            assert(self@.marked =~= pre.marked);
        }
        Some(j)
    }

    /// Whether the ledger has this key marked processed.
    pub fn is_job_processed(&self, job_id: &String) -> (r: bool)
        ensures
            r == self@.marked.contains(job_id@),
    {
        let n = self.marked.len();
        let mut i: usize = 0;
        while i < n
            invariant
                0 <= i <= n,
                n == self.marked@.len(),
                forall|k: int| 0 <= k < i ==> self.marked@[k]@ != job_id@,
            decreases n - i,
        {
            if self.marked[i].eq(job_id) {
                proof {
                    assert(self@.marked.contains(job_id@)) by {
                        assert(self.marked@.map_values(|s: String| s@)[i as int] == job_id@);
                    }
                }
                return true;
            }
            i = i + 1;
        }
        proof {
            if self@.marked.contains(job_id@) {
                let mapped = self.marked@.map_values(|t: String| t@);
                assert(mapped.contains(job_id@));
                let k = choose|k: int| 0 <= k < mapped.len() && mapped[k] == job_id@;
                assert(self.marked@[k]@ == job_id@);
            }
        }
        false
    }

    /// Marks this key processed in the ledger.  The real ledger entry
    /// carries an expiry long enough to absorb redelivery; the model keeps
    /// the key.
    pub fn mark_job_processed(&mut self, job_id: &String)
        ensures
            final(self)@.marked == old(self)@.marked.insert(job_id@),
            final(self)@.payment_jobs == old(self)@.payment_jobs,
            final(self)@.confirmation_jobs == old(self)@.confirmation_jobs,
    {
        let ghost pre = self@;
        self.marked.push(job_id.clone());
        proof {
            assert(self@.marked =~= pre.marked.insert(job_id@)) by {
                let mapped = self.marked@.map_values(|s: String| s@);
                let pre_mapped = old(self).marked@.map_values(|s: String| s@);
                assert(mapped =~= pre_mapped.push(job_id@));
                assert forall|x: Seq<char>| mapped.contains(x) implies pre_mapped.contains(x) || x
                    == job_id@ by {
                    let k = choose|k: int| 0 <= k < mapped.len() && mapped[k] == x;
                    if k < pre_mapped.len() {
                        assert(pre_mapped[k] == x);
                    }
                }
                assert forall|x: Seq<char>|
                    pre_mapped.contains(x) implies mapped.contains(x) by {
                    let k = choose|k: int| 0 <= k < pre_mapped.len() && pre_mapped[k] == x;
                    assert(mapped[k] == x);
                }
                assert(mapped.contains(job_id@)) by {
                    assert(mapped[mapped.len() - 1] == job_id@);
                }
            }
            assert(self@.payment_jobs =~= pre.payment_jobs);
            assert(self@.confirmation_jobs =~= pre.confirmation_jobs);
        }
    }
}

} // verus!
