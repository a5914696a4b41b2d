//! The confirmation worker's per-job step: check the job's required fields,
//! and apply the `pending -> confirmed` transition conditionally — the
//! store-side status filter, not the queue, is the final idempotency guard
//! under at-least-once delivery.
//!
//! The loop around it — blocking pop, backoff on transport errors — lives at
//! the boundary and hands every decoded job to `handle_confirmation_job`.

use vstd::prelude::*;

use crate::models::opt_int;
use crate::queue::ConfirmationJob;
use crate::store::PaymentStore;
use crate::store::confirm_spec;
use crate::store::has_pending_id;
use crate::time::parse_rfc3339_unix;
use crate::time::rfc3339_unix_of;

verus! {

/// Whether uuid's `Uuid::parse_str` accepts this string as a payment
/// identifier; a function of the characters alone.
pub uninterp spec fn uuid_valid(s: Seq<char>) -> bool;

/// Relies on uuid's `Uuid::parse_str`: acceptance depends on the characters
/// of the string alone.
#[verifier::external_body]
fn payment_id_is_valid(s: &str) -> (r: bool)
    ensures
        r == uuid_valid(s@),
{
    uuid::Uuid::parse_str(s).is_ok()
}

/// The instant a wire job's optional paid-at field denotes.
pub open spec fn spec_paid_at_of(s: Option<Seq<char>>) -> Option<i64> {
    match s {
        Some(x) => rfc3339_unix_of(x),
        None => None,
    }
}

/// Reads the optional paid-at field off the wire: an RFC 3339 instant as
/// unix seconds, or nothing for an absent or malformed field — a malformed
/// instant is dropped, not an error.
pub fn paid_at_from_wire(s: &Option<String>) -> (r: Option<i64>)
    ensures
        r == spec_paid_at_of(s.deep_view()),
{
    match s {
        Some(x) => parse_rfc3339_unix(x.as_str()),
        None => None,
    }
}

/// How one per-job step ended.
pub enum WorkerOutcome {
    /// The job's payment identifier does not parse: the job is dropped, not
    /// retried — a malformed job cannot self-correct.
    InvalidJob,
    /// The request moved from pending to confirmed.
    Confirmed,
    /// No request with that id is currently pending: a no-op, absorbing
    /// redelivered and repeated jobs.
    NotFoundOrNotPending,
}

/// Applies one confirmation job to the store.
///
/// A job whose payment identifier is not a valid identifier is dropped and
/// changes nothing.  Otherwise the store's conditional transition runs:
/// exactly the pending request with that id, if there is one, moves to its
/// confirmed image — sender, signature and paid-at recorded — and anything
/// else is a no-op.
pub fn handle_confirmation_job(store: &mut PaymentStore, job: &ConfirmationJob, now: i64) -> (r:
    WorkerOutcome)
    requires
        old(store).wf(),
    ensures
        final(store).wf(),
        !uuid_valid(job.payment_id@) ==> r is InvalidJob && final(store)@ == old(store)@,
        uuid_valid(job.payment_id@) && has_pending_id(old(store)@, job.payment_id@) ==> r
            is Confirmed && final(store)@ == confirm_spec(
            old(store)@,
            job.payment_id@,
            job.sender_address@,
            job.tx_sig@,
            opt_int(job.paid_at),
            now as int,
        ),
        uuid_valid(job.payment_id@) && !has_pending_id(old(store)@, job.payment_id@) ==> r
            is NotFoundOrNotPending && final(store)@ == old(store)@,
{
    if !payment_id_is_valid(job.payment_id.as_str()) {
        return WorkerOutcome::InvalidJob;
    }
    match store.confirm(&job.payment_id, &job.sender_address, &job.tx_sig, job.paid_at, now) {
        Ok(()) => WorkerOutcome::Confirmed,
        Err(_) => WorkerOutcome::NotFoundOrNotPending,
    }
}

} // verus!
