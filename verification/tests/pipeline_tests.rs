use payment_gateway::indexer::Indexer;
use payment_gateway::indexer::IndexerOutcome;
use payment_gateway::models::PaymentRequest;
use payment_gateway::models::PaymentStatus;
use payment_gateway::parser::AnnotatedAccount;
use payment_gateway::parser::RawTransaction;
use payment_gateway::parser::TransactionAccounts;
use payment_gateway::parser::TransactionMeta;
use payment_gateway::queue::ConfirmationJob;
use payment_gateway::queue::JobQueue;
use payment_gateway::store::PaymentStore;
use payment_gateway::worker::WorkerOutcome;
use payment_gateway::worker::handle_confirmation_job;

const PAYMENT_ID: &str = "550e8400-e29b-41d4-a716-446655440000";
const WALLET: &str = "merchant222";

fn stored_request(id: &str, memo: &str, amount: i64) -> PaymentRequest {
    PaymentRequest {
        id: id.to_string(),
        amount_lamports: amount,
        token_symbol: "SOL".to_string(),
        memo: memo.to_string(),
        status: PaymentStatus::Pending,
        receiver_address: WALLET.to_string(),
        sender_address: None,
        tx_sig: None,
        block_height: None,
        created_at: 1_700_000_000,
        paid_at: None,
        updated_at: 1_700_000_000,
        expires_at: Some(1_700_000_900),
        order_id: None,
        customer_email: None,
    }
}

fn payment_tx(memo_line: &str, delta: u64) -> RawTransaction {
    RawTransaction {
        meta: Some(TransactionMeta {
            failed: false,
            pre_balances: vec![5_000_000_000, 1_000_000_000],
            post_balances: vec![5_000_000_000 - delta, 1_000_000_000 + delta],
            log_messages: Some(vec![memo_line.to_string()]),
        }),
        accounts: TransactionAccounts::Annotated(vec![
            AnnotatedAccount { pubkey: "sender111".to_string() },
            AnnotatedAccount { pubkey: WALLET.to_string() },
        ]),
        block_time: Some(1_700_000_050),
    }
}

/// A request over 1 SOL-equivalent is matched by its memo, a confirmation
/// job with the same amount is enqueued, and the worker transitions the
/// request to confirmed with the transaction's signature.
#[test]
fn observed_payment_confirms_the_matching_request() {
    let mut store = PaymentStore::new();
    store.insert(stored_request(PAYMENT_ID, "PAY-ABCD1234", 1_000_000_000)).unwrap();
    let mut queue = JobQueue::new();
    let mut indexer = Indexer::new(WALLET.to_string());

    let tx = payment_tx("Program log: Memo (len 13): \"PAY-ABCD1234\"", 1_000_000_000);
    let sig = "sig-abc".to_string();
    assert!(indexer.should_fetch(&sig));
    let outcome = indexer.handle_transaction(&store, &mut queue, &tx, &sig);
    match outcome {
        IndexerOutcome::JobPushed { payment_id } => assert_eq!(payment_id, PAYMENT_ID),
        _ => panic!("expected a pushed job"),
    }
    assert!(!indexer.should_fetch(&sig));

    let job = queue.pop_confirmation_job().expect("job expected");
    assert_eq!(job.payment_id, PAYMENT_ID);
    assert_eq!(job.amount_lamports, 1_000_000_000);
    assert_eq!(job.tx_sig, "sig-abc");
    assert_eq!(job.memo, "PAY-ABCD1234");
    assert_eq!(job.sender_address, "sender111");
    assert_eq!(job.paid_at, Some(1_700_000_050));

    let outcome = handle_confirmation_job(&mut store, &job, 1_700_000_060);
    assert!(matches!(outcome, WorkerOutcome::Confirmed));
    let got = store.find_by_id(&PAYMENT_ID.to_string()).unwrap();
    assert_eq!(got.status, PaymentStatus::Confirmed);
    assert_eq!(got.tx_sig, Some("sig-abc".to_string()));
    assert_eq!(got.sender_address, Some("sender111".to_string()));
    assert_eq!(got.paid_at, Some(1_700_000_050));
}

/// The same signature re-fetched after the local seen set was cleared is
/// stopped by the idempotency ledger: no second job.
#[test]
fn cleared_seen_set_does_not_duplicate_the_job() {
    let mut store = PaymentStore::new();
    store.insert(stored_request(PAYMENT_ID, "PAY-ABCD1234", 1_000_000_000)).unwrap();
    let mut queue = JobQueue::new();
    let mut indexer = Indexer::new(WALLET.to_string());

    let tx = payment_tx("Program log: Memo (len 13): \"PAY-ABCD1234\"", 1_000_000_000);
    let sig = "sig-abc".to_string();
    let first = indexer.handle_transaction(&store, &mut queue, &tx, &sig);
    assert!(matches!(first, IndexerOutcome::JobPushed { .. }));

    // A later polling session: the local cache is gone, the ledger is not.
    let mut indexer = Indexer::new(WALLET.to_string());
    assert!(indexer.should_fetch(&sig));
    let second = indexer.handle_transaction(&store, &mut queue, &tx, &sig);
    assert!(matches!(second, IndexerOutcome::AlreadyProcessed));

    // Exactly one job was ever enqueued.
    assert!(queue.pop_confirmation_job().is_some());
    assert!(queue.pop_confirmation_job().is_none());
}

/// A memo with no corresponding pending request pushes nothing, marks the
/// signature seen, and raises no error.
#[test]
fn unmatched_memo_is_marked_seen_without_a_job() {
    let store = PaymentStore::new();
    let mut queue = JobQueue::new();
    let mut indexer = Indexer::new(WALLET.to_string());

    let tx = payment_tx("Program log: Memo (len 12): \"PAY-ZZZZ0000\"", 500);
    let sig = "sig-zzz".to_string();
    let outcome = indexer.handle_transaction(&store, &mut queue, &tx, &sig);
    assert!(matches!(outcome, IndexerOutcome::NoMatchingRequest));
    assert!(!indexer.should_fetch(&sig));
    assert!(queue.pop_confirmation_job().is_none());
}

/// A signal without a memo is permanently marked seen: it can never match.
#[test]
fn missing_memo_is_marked_seen_without_a_job() {
    let store = PaymentStore::new();
    let mut queue = JobQueue::new();
    let mut indexer = Indexer::new(WALLET.to_string());

    let mut tx = payment_tx("Program 1111 invoke", 500);
    if let Some(meta) = tx.meta.as_mut() {
        meta.log_messages = None;
    }
    let sig = "sig-nomemo".to_string();
    let outcome = indexer.handle_transaction(&store, &mut queue, &tx, &sig);
    assert!(matches!(outcome, IndexerOutcome::NoMemo));
    assert!(!indexer.should_fetch(&sig));
    assert!(queue.pop_confirmation_job().is_none());
}

/// A job whose payment id does not parse as a valid identifier is dropped
/// and the store is untouched.
#[test]
fn malformed_payment_id_drops_the_job() {
    let mut store = PaymentStore::new();
    store.insert(stored_request(PAYMENT_ID, "PAY-ABCD1234", 10)).unwrap();
    let job = ConfirmationJob {
        payment_id: "not-a-valid-identifier".to_string(),
        memo: "PAY-ABCD1234".to_string(),
        sender_address: "sender111".to_string(),
        tx_sig: "sig-abc".to_string(),
        amount_lamports: 10,
        paid_at: None,
    };
    let outcome = handle_confirmation_job(&mut store, &job, 1_700_000_060);
    assert!(matches!(outcome, WorkerOutcome::InvalidJob));
    let got = store.find_by_id(&PAYMENT_ID.to_string()).unwrap();
    assert_eq!(got.status, PaymentStatus::Pending);
}

/// A well-formed job for an id that is not pending is a no-op.
#[test]
fn job_for_unknown_id_is_a_no_op() {
    let mut store = PaymentStore::new();
    let job = ConfirmationJob {
        payment_id: PAYMENT_ID.to_string(),
        memo: "PAY-ABCD1234".to_string(),
        sender_address: "sender111".to_string(),
        tx_sig: "sig-abc".to_string(),
        amount_lamports: 10,
        paid_at: None,
    };
    let outcome = handle_confirmation_job(&mut store, &job, 0);
    assert!(matches!(outcome, WorkerOutcome::NotFoundOrNotPending));
}

/// The seen cache clears itself above its threshold and keeps everything
/// below it.
#[test]
fn seen_cache_clears_above_threshold() {
    let mut indexer = Indexer::new(WALLET.to_string());
    let sig = "sig-1".to_string();
    indexer.seen.insert(&sig);
    assert!(!indexer.prune_seen());
    assert!(!indexer.should_fetch(&sig));
    for i in 0..1001 {
        indexer.seen.insert(&format!("sig-bulk-{}", i));
    }
    assert!(indexer.prune_seen());
    assert!(indexer.should_fetch(&sig));
}
