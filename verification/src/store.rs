//! The payment-request store: insert a request, look one up by id or by
//! pending memo, and apply the one state transition the pipeline owns —
//! `pending -> confirmed`, conditional on the current status, so that a
//! request is confirmed at most once in its lifetime.
//!
//! The store keeps two invariants the relational schema enforces with its
//! keys: request ids are unique, and memos are unique — the memo is the sole
//! correlation key, so at most one request can ever match a signal.

use vstd::prelude::*;

use crate::memo::generate_memo;
use crate::memo::is_well_formed_memo;
use crate::memo::fresh_uuid_hyphenated;
use crate::models::CreatePaymentRequest;
use crate::models::PaymentRequest;
use crate::models::PaymentRequestV;
use crate::models::PaymentStatus;
use crate::models::opt_int;

verus! {

/// Request ids are pairwise distinct.
pub open spec fn ids_unique(s: Seq<PaymentRequestV>) -> bool {
    forall|i: int, j: int| 0 <= i < j < s.len() ==> s[i].id != s[j].id
}

/// Memos are pairwise distinct.
pub open spec fn memos_unique(s: Seq<PaymentRequestV>) -> bool {
    forall|i: int, j: int| 0 <= i < j < s.len() ==> s[i].memo != s[j].memo
}

/// Some request carries this id.
pub open spec fn has_id(s: Seq<PaymentRequestV>, id: Seq<char>) -> bool {
    exists|i: int| 0 <= i < s.len() && s[i].id == id
}

/// Some request carries this memo.
pub open spec fn has_memo(s: Seq<PaymentRequestV>, m: Seq<char>) -> bool {
    exists|i: int| 0 <= i < s.len() && s[i].memo == m
}

/// Some pending request carries this memo.
pub open spec fn has_pending_memo(s: Seq<PaymentRequestV>, m: Seq<char>) -> bool {
    exists|i: int|
        0 <= i < s.len() && s[i].memo == m && s[i].status == PaymentStatus::Pending
}

/// Some pending request carries this id.
pub open spec fn has_pending_id(s: Seq<PaymentRequestV>, id: Seq<char>) -> bool {
    exists|i: int| 0 <= i < s.len() && s[i].id == id && s[i].status == PaymentStatus::Pending
}

/// No stored row carries a hyphenated identifier or a well-formed memo, so
/// no freshly drawn id or memo can collide with one.
pub open spec fn no_generated_shapes(s: Seq<PaymentRequestV>) -> bool {
    forall|i: int|
        #![trigger s[i].id]
        #![trigger s[i].memo]
        0 <= i < s.len() ==> !crate::memo::is_uuid_hyphenated(s[i].id) && !is_well_formed_memo(
            s[i].memo,
        )
}

/// Creation instants never fall along insertion order — what holds of a
/// store that is only ever fed with a monotone clock's readings.
pub open spec fn created_nondecreasing(s: Seq<PaymentRequestV>) -> bool {
    forall|i: int, j: int|
        0 <= i < j < s.len() ==> #[trigger] s[i].created_at <= #[trigger] s[j].created_at
}

/// The position of the request carrying this id; meaningful only when
/// `has_id`, and unique under `ids_unique`.
pub open spec fn id_index(s: Seq<PaymentRequestV>, id: Seq<char>) -> int {
    choose|i: int| 0 <= i < s.len() && s[i].id == id
}

pub proof fn lemma_id_index_agrees(s: Seq<PaymentRequestV>, id: Seq<char>, i: int)
    requires
        ids_unique(s),
        0 <= i < s.len(),
        s[i].id == id,
    ensures
        id_index(s, id) == i,
{
    let j = id_index(s, id);
    assert(0 <= j < s.len() && s[j].id == id);
}

/// The image of a request after confirmation: status `Confirmed`; sender,
/// signature and paid-at set; the update instant recorded; all else kept.
pub open spec fn confirmed_version(
    r: PaymentRequestV,
    sender: Seq<char>,
    sig: Seq<char>,
    paid_at: Option<int>,
    now: int,
) -> PaymentRequestV {
    PaymentRequestV {
        status: PaymentStatus::Confirmed,
        sender_address: Some(sender),
        tx_sig: Some(sig),
        paid_at: paid_at,
        updated_at: now,
        ..r
    }
}

/// What a successful confirmation does to the store: exactly the pending
/// request with the given id moves to its confirmed image.
pub open spec fn confirm_spec(
    s: Seq<PaymentRequestV>,
    id: Seq<char>,
    sender: Seq<char>,
    sig: Seq<char>,
    paid_at: Option<int>,
    now: int,
) -> Seq<PaymentRequestV> {
    s.update(id_index(s, id), confirmed_version(s[id_index(s, id)], sender, sig, paid_at, now))
}

/// Why an insert was refused: the schema's keys.
#[derive(Clone, Copy, PartialEq, Eq, Structural, Debug)]
pub enum StoreError {
    DuplicateId,
    DuplicateMemo,
}

/// Why a confirmation was refused: no request with that id is currently
/// pending.
#[derive(Clone, Copy, PartialEq, Eq, Structural, Debug)]
pub enum ConfirmError {
    NotFoundOrNotPending,
}

/// The payment-request store.
pub struct PaymentStore {
    requests: Vec<PaymentRequest>,
}

impl View for PaymentStore {
    type V = Seq<PaymentRequestV>;

    closed spec fn view(&self) -> Seq<PaymentRequestV> {
        self.requests@.map_values(|r: PaymentRequest| r@)
    }
}

impl PaymentStore {
    /// Both key invariants hold.
    pub open spec fn wf(&self) -> bool {
        ids_unique(self@) && memos_unique(self@)
    }

    /// An empty store.
    pub fn new() -> (s: Self)
        ensures
            s.wf(),
            s@ == Seq::<PaymentRequestV>::empty(),
    {
        let s = PaymentStore { requests: Vec::new() };
        proof {
            assert(s@ =~= Seq::<PaymentRequestV>::empty());
        }
        s
    }

    /// How many requests the store holds.
    pub fn len(&self) -> (n: usize)
        ensures
            n == self@.len(),
    {
        self.requests.len()
    }

    /// The position of the request with this id, if any.
    fn index_of_id(&self, id: &String) -> (r: Option<usize>)
        ensures
            match r {
                Some(i) => i < self@.len() && self@[i as int].id == id@,
                None => !has_id(self@, id@),
            },
    {
        let n = self.requests.len();
        let mut i: usize = 0;
        while i < n
            invariant
                0 <= i <= n,
                n == self@.len(),
                self@ == self.requests@.map_values(|r: PaymentRequest| r@),
                forall|k: int| 0 <= k < i ==> self@[k].id != id@,
            decreases n - i,
        {
            if self.requests[i].id.eq(id) {
                return Some(i);
            }
            i = i + 1;
        }
        None
    }

    /// The position of the request with this memo, if any.
    fn index_of_memo(&self, memo: &String) -> (r: Option<usize>)
        ensures
            match r {
                Some(i) => i < self@.len() && self@[i as int].memo == memo@,
                None => !has_memo(self@, memo@),
            },
    {
        let n = self.requests.len();
        let mut i: usize = 0;
        while i < n
            invariant
                0 <= i <= n,
                n == self@.len(),
                self@ == self.requests@.map_values(|r: PaymentRequest| r@),
                forall|k: int| 0 <= k < i ==> self@[k].memo != memo@,
            decreases n - i,
        {
            if self.requests[i].memo.eq(memo) {
                return Some(i);
            }
            i = i + 1;
        }
        None
    }

    /// Inserts a request, refusing a duplicate id or memo as the schema's
    /// keys would.
    pub fn insert(&mut self, r: PaymentRequest) -> (res: Result<(), StoreError>)
        requires
            old(self).wf(),
        ensures
            final(self).wf(),
            match res {
                Ok(()) => !has_id(old(self)@, r@.id) && !has_memo(old(self)@, r@.memo)
                    && final(self)@ == old(self)@.push(r@),
                Err(StoreError::DuplicateId) => has_id(old(self)@, r@.id) && final(self)@ == old(
                    self,
                )@,
                Err(StoreError::DuplicateMemo) => !has_id(old(self)@, r@.id) && has_memo(
                    old(self)@,
                    r@.memo,
                ) && final(self)@ == old(self)@,
            },
    {
        if self.index_of_id(&r.id).is_some() {
            return Err(StoreError::DuplicateId);
        }
        if self.index_of_memo(&r.memo).is_some() {
            return Err(StoreError::DuplicateMemo);
        }
        let ghost pre = self@;
        self.requests.push(r);
        proof {
            assert(self@ =~= pre.push(r@));
            assert forall|i: int, j: int| 0 <= i < j < self@.len() implies self@[i].id
                != self@[j].id && self@[i].memo != self@[j].memo by {
                if j < pre.len() {
                } else {
                    assert(self@[j] == r@);
                    assert(!has_id(pre, r@.id) && !has_memo(pre, r@.memo));
                }
            }
        }
        Ok(())
    }

    /// Fetches the request with this id, if any.
    pub fn find_by_id(&self, id: &String) -> (r: Option<PaymentRequest>)
        requires
            self.wf(),
        ensures
            match r {
                Some(p) => p@.id == id@ && self@.contains(p@),
                None => !has_id(self@, id@),
            },
    {
        match self.index_of_id(id) {
            Some(i) => {
                let p = self.requests[i].clone();
                proof {
                    assert(self@[i as int] == p@);
                }
                Some(p)
            },
            None => None,
        }
    }

    /// Fetches the pending request with this memo, if any.  The lookup
    /// filters by status: a memo attached to an already-confirmed request
    /// must not re-match.
    pub fn find_pending_by_memo(&self, memo: &String) -> (r: Option<PaymentRequest>)
        requires
            self.wf(),
        ensures
            match r {
                Some(p) => p@.memo == memo@ && p@.status == PaymentStatus::Pending
                    && self@.contains(p@),
                None => !has_pending_memo(self@, memo@),
            },
    {
        let n = self.requests.len();
        let mut i: usize = 0;
        while i < n
            invariant
                0 <= i <= n,
                n == self@.len(),
                self@ == self.requests@.map_values(|r: PaymentRequest| r@),
                forall|k: int|
                    0 <= k < i ==> !(self@[k].memo == memo@ && self@[k].status
                        == PaymentStatus::Pending),
            decreases n - i,
        {
            if self.requests[i].memo.eq(memo) && self.requests[i].status == PaymentStatus::Pending {
                let p = self.requests[i].clone();
                proof {
                    assert(self@[i as int] == p@);
                }
                return Some(p);
            }
            i = i + 1;
        }
        None
    }

    /// Applies the confirmation transition: sets status `confirmed`, sender,
    /// signature and paid-at, exactly when the request exists and is
    /// currently pending; anything else is refused and changes nothing.
    pub fn confirm(
        &mut self,
        id: &String,
        sender_address: &String,
        tx_sig: &String,
        paid_at: Option<i64>,
        now: i64,
    ) -> (r: Result<(), ConfirmError>)
        requires
            old(self).wf(),
        ensures
            final(self).wf(),
            has_pending_id(old(self)@, id@) ==> r is Ok && final(self)@ == confirm_spec(
                old(self)@,
                id@,
                sender_address@,
                tx_sig@,
                opt_int(paid_at),
                now as int,
            ),
            !has_pending_id(old(self)@, id@) ==> r is Err && final(self)@ == old(self)@,
    {
        let i = match self.index_of_id(id) {
            Some(i) => i,
            None => {
                return Err(ConfirmError::NotFoundOrNotPending);
            },
        };
        if !(self.requests[i].status == PaymentStatus::Pending) {
            proof {
                assert forall|k: int|
                    0 <= k < self@.len() && self@[k].id == id@ implies self@[k].status
                    != PaymentStatus::Pending by {
                    if k != i as int {
                        assert(self@[k].id != self@[i as int].id);
                    }
                }
            }
            return Err(ConfirmError::NotFoundOrNotPending);
        }
        let ghost pre = self@;
        let cur = self.requests[i].clone();
        let updated = PaymentRequest {
            status: PaymentStatus::Confirmed,
            sender_address: Some(sender_address.clone()),
            tx_sig: Some(tx_sig.clone()),
            paid_at,
            updated_at: now,
            ..cur
        };
        self.requests[i] = updated;
        proof {
            lemma_id_index_agrees(pre, id@, i as int);
            assert(self@ =~= confirm_spec(pre, id@, sender_address@, tx_sig@, opt_int(paid_at), now as int));
            assert forall|a: int, b: int| 0 <= a < b < self@.len() implies self@[a].id
                != self@[b].id && self@[a].memo != self@[b].memo by {
                assert(self@[a].id == pre[a].id && self@[a].memo == pre[a].memo);
                assert(self@[b].id == pre[b].id && self@[b].memo == pre[b].memo);
            }
        }
        Ok(())
    }

    /// The most recent requests, newest first, at most `limit` of them.
    /// Requests are appended at creation, so recency is position from the
    /// end.
    pub fn list_recent(&self, limit: usize) -> (r: Vec<PaymentRequest>)
        requires
            self.wf(),
        ensures
            r@.len() == vstd::math::min(limit as int, self@.len() as int),
            forall|k: int| 0 <= k < r@.len() ==> r@[k]@ == self@[self@.len() - 1 - k],
            created_nondecreasing(self@) ==> (forall|a: int, b: int|
                0 <= a < b < r@.len() ==> #[trigger] r@[a]@.created_at >= #[trigger] r@[b]@.created_at),
            created_nondecreasing(self@) ==> (forall|a: int, j: int|
                0 <= a < r@.len() && 0 <= j < self@.len() - r@.len()
                    ==> #[trigger] self@[j].created_at <= #[trigger] r@[a]@.created_at),
    {
        let n = self.requests.len();
        let count = if limit < n {
            limit
        } else {
            n
        };
        let mut out: Vec<PaymentRequest> = Vec::new();
        let mut k: usize = 0;
        while k < count
            invariant
                0 <= k <= count,
                count <= n,
                n == self@.len(),
                self@ == self.requests@.map_values(|r: PaymentRequest| r@),
                out@.len() == k,
                forall|j: int| 0 <= j < k ==> out@[j]@ == self@[self@.len() - 1 - j],
            decreases count - k,
        {
            let p = self.requests[n - 1 - k].clone();
            out.push(p);
            k = k + 1;
        }
        proof {
            if created_nondecreasing(self@) {
                assert forall|a: int, b: int|
                    0 <= a < b < out@.len() implies #[trigger] out@[a]@.created_at
                        >= #[trigger] out@[b]@.created_at by {
                    assert(out@[a]@ == self@[self@.len() - 1 - a]);
                    assert(out@[b]@ == self@[self@.len() - 1 - b]);
                    assert(self@[self@.len() - 1 - b].created_at
                        <= self@[self@.len() - 1 - a].created_at);
                }
                assert forall|a: int, j: int|
                    0 <= a < out@.len() && 0 <= j < self@.len() - out@.len()
                        implies #[trigger] self@[j].created_at <= #[trigger] out@[a]@.created_at by {
                    assert(out@[a]@ == self@[self@.len() - 1 - a]);
                    assert(self@[j].created_at <= self@[self@.len() - 1 - a].created_at);
                }
            }
        }
        out
    }

    /// Creates a payment request: a fresh id, a fresh memo, status pending,
    /// a fifteen-minute expiry from `now`, the token symbol defaulting to
    /// `SOL`.  The freshly drawn id or memo colliding with a stored one is
    /// refused, which is what keeps memos unique; creation fails only
    /// through such a collision, so where no stored row has the drawn keys'
    /// shape — an empty store in particular — success is owed.
    pub fn create_payment(
        &mut self,
        payload: CreatePaymentRequest,
        receiver_address: &String,
        now: i64,
    ) -> (r: Result<PaymentRequest, StoreError>)
        requires
            old(self).wf(),
        ensures
            final(self).wf(),
            match r {
                Ok(req) => final(self)@ == old(self)@.push(req@) && !has_memo(old(self)@, req@.memo)
                    && !has_id(old(self)@, req@.id) && req@.amount_lamports
                    == payload.amount_lamports as int && req@.token_symbol == (match payload
                    .token_symbol {
                    Some(t) => t@,
                    None => "SOL"@,
                }) && is_well_formed_memo(req@.memo) && req@.status == PaymentStatus::Pending
                    && req@.receiver_address == receiver_address@ && req@.sender_address is None
                    && req@.tx_sig is None && req@.paid_at is None && req@.block_height is None
                    && req@.created_at == now as int && req@.updated_at == now as int
                    && req@.expires_at == Some(
                    if now + 900 <= i64::MAX {
                        now + 900
                    } else {
                        i64::MAX as int
                    },
                ) && req@.order_id == payload.order_id.deep_view() && req@.customer_email
                    == payload.customer_email.deep_view(),
                Err(StoreError::DuplicateId) => final(self)@ == old(self)@ && (exists|i: int|
                    0 <= i < old(self)@.len() && crate::memo::is_uuid_hyphenated(
                        #[trigger] old(self)@[i].id,
                    )),
                Err(StoreError::DuplicateMemo) => final(self)@ == old(self)@ && (exists|i: int|
                    0 <= i < old(self)@.len() && is_well_formed_memo(
                        #[trigger] old(self)@[i].memo,
                    )),
            },
            no_generated_shapes(old(self)@) ==> r is Ok,
    {
        let req = new_payment_request(payload, receiver_address, now);
        let ghost rv = req@;
        let copy = req.clone();
        match self.insert(req) {
            Ok(()) => Ok(copy),
            Err(e) => {
                proof {
                    match e {
                        StoreError::DuplicateId => {
                            let i = choose|i: int|
                                0 <= i < old(self)@.len() && old(self)@[i].id == rv.id;
                            assert(crate::memo::is_uuid_hyphenated(old(self)@[i].id));
                        },
                        StoreError::DuplicateMemo => {
                            let i = choose|i: int|
                                0 <= i < old(self)@.len() && old(self)@[i].memo == rv.memo;
                            assert(is_well_formed_memo(old(self)@[i].memo));
                        },
                    }
                }
                Err(e)
            },
        }
    }
}

/// Builds a fresh payment request: a fresh id, a fresh memo, status pending,
/// a fifteen-minute expiry from `now`, the token symbol defaulting to `SOL`.
pub fn new_payment_request(
    payload: CreatePaymentRequest,
    receiver_address: &String,
    now: i64,
) -> (req: PaymentRequest)
    ensures
        req@.amount_lamports == payload.amount_lamports as int,
        req@.token_symbol == (match payload.token_symbol {
            Some(t) => t@,
            None => "SOL"@,
        }),
        crate::memo::is_uuid_hyphenated(req@.id),
        is_well_formed_memo(req@.memo),
        req@.status == PaymentStatus::Pending,
        req@.receiver_address == receiver_address@,
        req@.sender_address is None,
        req@.tx_sig is None,
        req@.paid_at is None,
        req@.block_height is None,
        req@.created_at == now as int,
        req@.updated_at == now as int,
        req@.expires_at == Some(
            if now + 900 <= i64::MAX {
                now + 900
            } else {
                i64::MAX as int
            },
        ),
        req@.order_id == payload.order_id.deep_view(),
        req@.customer_email == payload.customer_email.deep_view(),
{
    let id = fresh_uuid_hyphenated();
    let memo = generate_memo();
    let token_symbol = match payload.token_symbol {
        Some(t) => t,
        None => {
            proof {
                reveal_strlit("SOL");
            }
            String::from_str("SOL")
        },
    };
    let expires = match now.checked_add(900) {
        Some(x) => x,
        None => i64::MAX,
    };
    let req = PaymentRequest {
        id,
        amount_lamports: payload.amount_lamports,
        token_symbol,
        memo,
        status: PaymentStatus::Pending,
        receiver_address: receiver_address.clone(),
        sender_address: None,
        tx_sig: None,
        block_height: None,
        created_at: now,
        paid_at: None,
        updated_at: now,
        expires_at: Some(expires),
        order_id: payload.order_id,
        customer_email: payload.customer_email,
    };
    req
}

/// A successful confirmation is not repeatable: the confirmed request is no
/// longer pending, so a second confirmation of the same id is refused and
/// leaves the store unchanged — at most one `pending -> confirmed`
/// transition per request, ever.
pub proof fn lemma_confirm_at_most_once(
    s: Seq<PaymentRequestV>,
    id: Seq<char>,
    sender: Seq<char>,
    sig: Seq<char>,
    paid_at: Option<int>,
    now: int,
)
    requires
        ids_unique(s),
        has_pending_id(s, id),
    ensures
        confirm_spec(s, id, sender, sig, paid_at, now)[id_index(s, id)].status
            == PaymentStatus::Confirmed,
        !has_pending_id(confirm_spec(s, id, sender, sig, paid_at, now), id),
{
    let i = id_index(s, id);
    assert(0 <= i < s.len() && s[i].id == id);
    let t = confirm_spec(s, id, sender, sig, paid_at, now);
    assert forall|k: int| 0 <= k < t.len() && t[k].id == id implies t[k].status
        != PaymentStatus::Pending by {
        if k != i {
            assert(t[k] == s[k]);
            assert(s[k].id != s[i].id);
        }
    }
}

} // verus!
