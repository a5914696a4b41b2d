//! Data model of the payment pipeline: payment requests and the records the
//! HTTP layer reads from them.  Chain amounts are integers in the chain's
//! smallest native unit; instants are unix seconds.

use vstd::prelude::*;

verus! {

/// Lifecycle of a payment request.  The transition `Pending -> Confirmed` is
/// monotonic: once confirmed, a request never reverts.
#[derive(Clone, Copy, PartialEq, Eq, Structural, Debug)]
pub enum PaymentStatus {
    Pending,
    Confirmed,
    Expired,
}

/// One payment request, as the relational store holds it.
///
/// `memo` is the sole correlation key between the off-chain request and the
/// on-chain transfer; `sender_address`, `tx_sig` and `paid_at` stay `None`
/// until confirmation and are set exactly once, together with the status
/// transition.
pub struct PaymentRequest {
    pub id: String,
    pub amount_lamports: i64,
    pub token_symbol: String,
    pub memo: String,
    pub status: PaymentStatus,
    pub receiver_address: String,
    pub sender_address: Option<String>,
    pub tx_sig: Option<String>,
    pub block_height: Option<i64>,
    pub created_at: i64,
    pub paid_at: Option<i64>,
    pub updated_at: i64,
    pub expires_at: Option<i64>,
    pub order_id: Option<String>,
    pub customer_email: Option<String>,
}

/// An optional machine integer, read as an optional unbounded integer.
pub open spec fn opt_int(o: Option<i64>) -> Option<int> {
    match o {
        Some(x) => Some(x as int),
        None => None,
    }
}

/// Mathematical image of a `PaymentRequest`: strings as character sequences,
/// machine integers as unbounded integers.
pub struct PaymentRequestV {
    pub id: Seq<char>,
    pub amount_lamports: int,
    pub token_symbol: Seq<char>,
    pub memo: Seq<char>,
    pub status: PaymentStatus,
    pub receiver_address: Seq<char>,
    pub sender_address: Option<Seq<char>>,
    pub tx_sig: Option<Seq<char>>,
    pub block_height: Option<int>,
    pub created_at: int,
    pub paid_at: Option<int>,
    pub updated_at: int,
    pub expires_at: Option<int>,
    pub order_id: Option<Seq<char>>,
    pub customer_email: Option<Seq<char>>,
}

impl View for PaymentRequest {
    type V = PaymentRequestV;

    open spec fn view(&self) -> PaymentRequestV {
        PaymentRequestV {
            id: self.id@,
            amount_lamports: self.amount_lamports as int,
            token_symbol: self.token_symbol@,
            memo: self.memo@,
            status: self.status,
            receiver_address: self.receiver_address@,
            sender_address: self.sender_address.deep_view(),
            tx_sig: self.tx_sig.deep_view(),
            block_height: opt_int(self.block_height),
            paid_at: opt_int(self.paid_at),
            created_at: self.created_at as int,
            updated_at: self.updated_at as int,
            expires_at: opt_int(self.expires_at),
            order_id: self.order_id.deep_view(),
            customer_email: self.customer_email.deep_view(),
        }
    }
}

impl Clone for PaymentRequest {
    /// A clone is the same value, field for field.
    fn clone(&self) -> (r: Self)
        ensures
            r == *self,
    {
        PaymentRequest {
            id: self.id.clone(),
            amount_lamports: self.amount_lamports,
            token_symbol: self.token_symbol.clone(),
            memo: self.memo.clone(),
            status: self.status,
            receiver_address: self.receiver_address.clone(),
            sender_address: clone_opt_string(&self.sender_address),
            tx_sig: clone_opt_string(&self.tx_sig),
            block_height: self.block_height,
            created_at: self.created_at,
            paid_at: self.paid_at,
            updated_at: self.updated_at,
            expires_at: self.expires_at,
            order_id: clone_opt_string(&self.order_id),
            customer_email: clone_opt_string(&self.customer_email),
        }
    }
}

/// An optional string, cloned to the same value.
pub fn clone_opt_string(o: &Option<String>) -> (r: Option<String>)
    ensures
        r == *o,
{
    match o {
        Some(s) => Some(s.clone()),
        None => None,
    }
}

/// Body of a request-creation call, as the HTTP layer hands it over.
pub struct CreatePaymentRequest {
    pub amount_lamports: i64,
    pub token_symbol: Option<String>,
    pub order_id: Option<String>,
    pub customer_email: Option<String>,
}

/// What the HTTP layer answers to a request-creation call.
pub struct PaymentResponse {
    pub payment_id: String,
    pub amount_lamports: i64,
    pub token_symbol: String,
    pub receiver_address: String,
    pub memo: String,
    pub instructions: String,
    pub status: PaymentStatus,
    pub created_at: i64,
    pub expires_at: Option<i64>,
}

/// Builds the answer to a request-creation call from the freshly created
/// request.  The human-readable payment instructions are rendered by the
/// display layer and handed in.
pub fn payment_response_of(req: &PaymentRequest, instructions: String) -> (r: PaymentResponse)
    ensures
        r.payment_id@ == req.id@,
        r.amount_lamports == req.amount_lamports,
        r.token_symbol@ == req.token_symbol@,
        r.receiver_address@ == req.receiver_address@,
        r.memo@ == req.memo@,
        r.instructions == instructions,
        r.status == req.status,
        r.created_at == req.created_at,
        r.expires_at == req.expires_at,
{
    PaymentResponse {
        payment_id: req.id.clone(),
        amount_lamports: req.amount_lamports,
        token_symbol: req.token_symbol.clone(),
        receiver_address: req.receiver_address.clone(),
        memo: req.memo.clone(),
        instructions,
        status: req.status,
        created_at: req.created_at,
        expires_at: req.expires_at,
    }
}

/// What the HTTP layer answers to a status query.
pub struct PaymentStatusResponse {
    pub id: String,
    pub status: PaymentStatus,
    pub amount_lamports: i64,
    pub token_symbol: String,
    pub memo: String,
    pub sender_address: Option<String>,
    pub receiver_address: String,
    pub tx_sig: Option<String>,
    pub paid_at: Option<i64>,
    pub created_at: i64,
}

impl From<PaymentRequest> for PaymentStatusResponse {
    /// The status view of a request copies its fields one for one.
    fn from(payment: PaymentRequest) -> (r: PaymentStatusResponse) {
        PaymentStatusResponse {
            id: payment.id,
            status: payment.status,
            amount_lamports: payment.amount_lamports,
            token_symbol: payment.token_symbol,
            memo: payment.memo,
            sender_address: payment.sender_address,
            receiver_address: payment.receiver_address,
            tx_sig: payment.tx_sig,
            paid_at: payment.paid_at,
            created_at: payment.created_at,
        }
    }
}

impl vstd::std_specs::convert::FromSpecImpl<PaymentRequest> for PaymentStatusResponse {
    open spec fn obeys_from_spec() -> bool {
        true
    }

    open spec fn from_spec(payment: PaymentRequest) -> Self {
        PaymentStatusResponse {
            id: payment.id,
            status: payment.status,
            amount_lamports: payment.amount_lamports,
            token_symbol: payment.token_symbol,
            memo: payment.memo,
            sender_address: payment.sender_address,
            receiver_address: payment.receiver_address,
            tx_sig: payment.tx_sig,
            paid_at: payment.paid_at,
            created_at: payment.created_at,
        }
    }
}

} // verus!
