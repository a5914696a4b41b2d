//! The indexer's per-signature step: parse the fetched transaction, match
//! the signal's memo against the pending requests, consult the idempotency
//! ledger, and enqueue at most one confirmation job.
//!
//! The loop around it — fetch recent signatures, fetch each unseen
//! transaction, sleep, repeat — performs I/O and lives at the boundary; it
//! hands every fetched record to `handle_transaction` and asks
//! `should_fetch` before spending a fetch.

use vstd::prelude::*;
use vstd::pervasive::unreached;

use crate::models::PaymentRequestV;
use crate::models::PaymentStatus;
use crate::parser::RawTransaction;
use crate::parser::parse_core;
use crate::parser::parse_transaction;
use crate::parser::payment_to_confirmation_job;
use crate::queue::ConfirmationJob;
use crate::queue::JobQueue;
use crate::store::PaymentStore;
use crate::store::has_pending_memo;
use crate::store::memos_unique;

verus! {

/// The signatures already inspected in this polling session.  A bounded
/// cache that only saves redundant fetch and parse work: clearing it is
/// always safe, because the durable ledger and the store's pending-status
/// filter are the real guards.
pub struct SeenSet {
    items: Vec<String>,
}

impl View for SeenSet {
    type V = Set<Seq<char>>;

    closed spec fn view(&self) -> Set<Seq<char>> {
        self.items@.map_values(|s: String| s@).to_set()
    }
}

impl SeenSet {
    /// No signature is stored twice.
    pub closed spec fn wf(&self) -> bool {
        forall|i: int, j: int|
            0 <= i < j < self.items@.len() ==> self.items@[i]@ != self.items@[j]@
    }

    /// An empty set.
    pub fn new() -> (s: Self)
        ensures
            s.wf(),
            s@ == Set::<Seq<char>>::empty(),
    {
        let s = SeenSet { items: Vec::new() };
        proof {
            assert(s@ =~= Set::<Seq<char>>::empty());
        }
        s
    }

    /// Whether this signature was already inspected.
    pub fn contains(&self, signature: &String) -> (r: bool)
        ensures
            r == self@.contains(signature@),
    {
        let n = self.items.len();
        let mut i: usize = 0;
        while i < n
            invariant
                0 <= i <= n,
                n == self.items@.len(),
                forall|k: int| 0 <= k < i ==> self.items@[k]@ != signature@,
            decreases n - i,
        {
            if self.items[i].eq(signature) {
                proof {
                    assert(self.items@.map_values(|s: String| s@)[i as int] == signature@);
                }
                return true;
            }
            i = i + 1;
        }
        proof {
            if self@.contains(signature@) {
                let mapped = self.items@.map_values(|s: String| s@);
                assert(mapped.contains(signature@));
                let k = choose|k: int| 0 <= k < mapped.len() && mapped[k] == signature@;
                assert(self.items@[k]@ == signature@);
            }
        }
        false
    }

    /// Records this signature as inspected.
    pub fn insert(&mut self, signature: &String)
        requires
            old(self).wf(),
        ensures
            final(self).wf(),
            final(self)@ == old(self)@.insert(signature@),
    {
        if self.contains(signature) {
            proof {
                assert(self@ =~= old(self)@.insert(signature@));
            }
            return;
        }
        let ghost pre = self@;
        let ghost pre_items = self.items@;
        self.items.push(signature.clone());
        proof {
            let mapped = self.items@.map_values(|s: String| s@);
            let pre_mapped = pre_items.map_values(|s: String| s@);
            assert(mapped =~= pre_mapped.push(signature@));
            assert(self@ =~= pre.insert(signature@)) by {
                assert forall|x: Seq<char>| mapped.contains(x) implies pre_mapped.contains(x) || x
                    == signature@ by {
                    let k = choose|k: int| 0 <= k < mapped.len() && mapped[k] == x;
                    if k < pre_mapped.len() {
                        assert(pre_mapped[k] == x);
                    }
                }
                assert forall|x: Seq<char>| pre_mapped.contains(x) implies mapped.contains(x) by {
                    let k = choose|k: int| 0 <= k < pre_mapped.len() && pre_mapped[k] == x;
                    assert(mapped[k] == x);
                }
                assert(mapped[mapped.len() - 1] == signature@);
            }
            assert forall|i: int, j: int|
                0 <= i < j < self.items@.len() implies self.items@[i]@ != self.items@[j]@ by {
                if j == self.items@.len() - 1 {
                    assert(!pre.contains(signature@));
                    assert(pre_mapped[i] == self.items@[i]@);
                }
            }
        }
    }

    /// How many signatures the set holds.
    pub fn len(&self) -> (n: usize)
        requires
            self.wf(),
        ensures
            n == self@.len(),
    {
        proof {
            let mapped = self.items@.map_values(|s: String| s@);
            assert(forall|i: int, j: int|
                0 <= i < j < mapped.len() ==> mapped[i] != mapped[j]);
            mapped.unique_seq_to_set();
        }
        self.items.len()
    }

    /// Forgets everything.
    pub fn clear(&mut self)
        ensures
            final(self).wf(),
            final(self)@ == Set::<Seq<char>>::empty(),
    {
        self.items.clear();
        proof {
            assert(self@ =~= Set::<Seq<char>>::empty());
        }
    }
}

/// The position of the pending request carrying this memo; meaningful only
/// when `has_pending_memo`, and unique under `memos_unique`.
pub open spec fn pending_memo_index(s: Seq<PaymentRequestV>, m: Seq<char>) -> int {
    choose|i: int|
        0 <= i < s.len() && s[i].memo == m && s[i].status == PaymentStatus::Pending
}

proof fn lemma_found_pending(s: Seq<PaymentRequestV>, m: Seq<char>, p: PaymentRequestV)
    requires
        memos_unique(s),
        s.contains(p),
        p.memo == m,
        p.status == PaymentStatus::Pending,
    ensures
        s[pending_memo_index(s, m)] == p,
{
    let i = choose|i: int| 0 <= i < s.len() && s[i] == p;
    let j = pending_memo_index(s, m);
    assert(0 <= j < s.len() && s[j].memo == m && s[j].status == PaymentStatus::Pending);
    if i != j {
        assert(s[i].memo == s[j].memo);
    }
}

/// How one per-signature step ended.
pub enum IndexerOutcome {
    /// The record is not a payment to the watched address.
    NotAPayment,
    /// A payment, but without a memo: it can never be matched.
    NoMemo,
    /// A memo, but no pending request carries it: not for us.
    NoMatchingRequest,
    /// The ledger already has this signature: pushed in an earlier run.
    AlreadyProcessed,
    /// A confirmation job was enqueued for this request.
    JobPushed { payment_id: String },
}

/// The step pushes a job exactly when the transaction parses to a signal
/// with a memo, some pending request carries that memo, and the ledger does
/// not hold the signature yet.
pub open spec fn step_pushes(
    store: Seq<PaymentRequestV>,
    marked: Set<Seq<char>>,
    tx: RawTransaction,
    sig: Seq<char>,
    wallet: Seq<char>,
) -> bool {
    match parse_core(tx, wallet) {
        Some(core) => match core.memo {
            Some(m) => has_pending_memo(store, m) && !marked.contains(sig),
            None => false,
        },
        None => false,
    }
}

/// One chain transaction pushes at most one confirmation job, ever: a push
/// marks the ledger with the signature, and a marked signature never pushes
/// again — even after the local seen set was cleared and the same
/// transaction re-fetched and re-parsed.
pub proof fn lemma_same_signature_pushes_at_most_once(
    store: Seq<PaymentRequestV>,
    marked: Set<Seq<char>>,
    tx: RawTransaction,
    sig: Seq<char>,
    wallet: Seq<char>,
)
    ensures
        !step_pushes(store, marked.insert(sig), tx, sig, wallet),
{
    assert(marked.insert(sig).contains(sig));
}

/// The indexer's loop state: the watched address and the session-local
/// cache of inspected signatures.
pub struct Indexer {
    pub wallet_address: String,
    pub seen: SeenSet,
}

impl Indexer {
    /// A fresh indexer watching one address.
    pub fn new(wallet_address: String) -> (ix: Self)
        ensures
            ix.seen.wf(),
            ix.seen@ == Set::<Seq<char>>::empty(),
            ix.wallet_address == wallet_address,
    {
        Indexer { wallet_address, seen: SeenSet::new() }
    }

    /// A signature already inspected this session is skipped without
    /// re-fetching.
    pub fn should_fetch(&self, signature: &String) -> (r: bool)
        ensures
            r == !self.seen@.contains(signature@),
    {
        !self.seen.contains(signature)
    }

    /// Clears the seen cache once it outgrows the threshold, to bound
    /// memory.  Clearing is safe: the ledger and the store's pending filter
    /// carry the correctness burden.
    pub fn prune_seen(&mut self) -> (cleared: bool)
        requires
            old(self).seen.wf(),
        ensures
            final(self).seen.wf(),
            final(self).wallet_address == old(self).wallet_address,
            cleared ==> final(self).seen@ == Set::<Seq<char>>::empty(),
            !cleared ==> final(self).seen@ == old(self).seen@,
    {
        if self.seen.len() > 1000 {
            self.seen.clear();
            true
        } else {
            false
        }
    }

    /// One per-signature step over a fetched transaction record.
    ///
    /// The signature is marked seen in every case.  A job is pushed exactly
    /// when `step_pushes` says so; the pushed job then carries the matched
    /// pending request's id, the signal's memo, sender and amount, the
    /// signature as its content-addressed key, and the signal's time; and
    /// the ledger is marked with the signature.  In every other case queue
    /// and ledger stay untouched, and the outcome names the reason.
    pub fn handle_transaction(
        &mut self,
        store: &PaymentStore,
        queue: &mut JobQueue,
        tx: &RawTransaction,
        signature: &String,
    ) -> (r: IndexerOutcome)
        requires
            old(self).seen.wf(),
            store.wf(),
        ensures
            final(self).seen.wf(),
            final(self).wallet_address == old(self).wallet_address,
            final(self).seen@ == old(self).seen@.insert(signature@),
            final(queue)@.payment_jobs == old(queue)@.payment_jobs,
            (r is JobPushed) == step_pushes(
                store@,
                old(queue)@.marked,
                *tx,
                signature@,
                old(self).wallet_address@,
            ),
            !step_pushes(store@, old(queue)@.marked, *tx, signature@, old(self).wallet_address@)
                ==> final(queue)@ == old(queue)@,
            step_pushes(store@, old(queue)@.marked, *tx, signature@, old(self).wallet_address@)
                ==> (parse_core(*tx, old(self).wallet_address@) matches Some(core) && core.memo
                matches Some(m) && final(queue)@.marked == old(queue)@.marked.insert(signature@)
                && final(queue)@.confirmation_jobs.len() == old(queue)@.confirmation_jobs.len() + 1
                && final(queue)@.confirmation_jobs.drop_last() == old(queue)@.confirmation_jobs && (
            {
                let j = final(queue)@.confirmation_jobs.last();
                &&& j.payment_id == store@[pending_memo_index(store@, m)].id
                &&& j.memo == m
                &&& j.sender_address == core.sender
                &&& j.tx_sig == signature@
                &&& j.amount_lamports == core.amount
                &&& (match tx.block_time {
                    None => j.paid_at is None,
                    Some(t) => j.paid_at matches Some(bt) && (-62135596800 <= t <= 253402300799
                        ==> bt == t),
                })
            }) && (r matches IndexerOutcome::JobPushed { payment_id } && payment_id@
                == store@[pending_memo_index(store@, m)].id)),
            parse_core(*tx, old(self).wallet_address@) is None ==> r is NotAPayment,
            (parse_core(*tx, old(self).wallet_address@) matches Some(core) && core.memo is None)
                ==> r is NoMemo,
            (parse_core(*tx, old(self).wallet_address@) matches Some(core) && core.memo matches
                Some(m) && !has_pending_memo(store@, m)) ==> r is NoMatchingRequest,
            (parse_core(*tx, old(self).wallet_address@) matches Some(core) && core.memo matches
                Some(m) && has_pending_memo(store@, m) && old(queue)@.marked.contains(signature@))
                ==> r is AlreadyProcessed,
    {
        let payment = match parse_transaction(tx, signature.as_str(), self.wallet_address.as_str()) {
            Some(p) => p,
            None => {
                self.seen.insert(signature);
                return IndexerOutcome::NotAPayment;
            },
        };
        let memo = match &payment.memo {
            Some(m) => m.clone(),
            None => {
                self.seen.insert(signature);
                return IndexerOutcome::NoMemo;
            },
        };
        let req = match store.find_pending_by_memo(&memo) {
            Some(req) => req,
            None => {
                self.seen.insert(signature);
                return IndexerOutcome::NoMatchingRequest;
            },
        };
        if queue.is_job_processed(signature) {
            self.seen.insert(signature);
            return IndexerOutcome::AlreadyProcessed;
        }
        proof {
            lemma_found_pending(store@, memo@, req@);
        }
        let job = match payment_to_confirmation_job(payment) {
            Some(j) => j,
            None => unreached(),
        };
        let ghost qpre = queue@;
        let confirmation = ConfirmationJob {
            payment_id: req.id.clone(),
            memo: job.memo,
            sender_address: job.sender_address,
            tx_sig: job.tx_sig,
            amount_lamports: job.amount_lamports,
            paid_at: job.paid_at,
        };
        queue.push_confirmation_job(confirmation);
        queue.mark_job_processed(signature);
        self.seen.insert(signature);
        proof {
            assert(queue@.confirmation_jobs.drop_last() =~= qpre.confirmation_jobs);
        }
        IndexerOutcome::JobPushed { payment_id: req.id }
    }
}

} // verus!
