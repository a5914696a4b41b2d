use payment_gateway::parser::AnnotatedAccount;
use payment_gateway::parser::ParsedPayment;
use payment_gateway::parser::RawTransaction;
use payment_gateway::parser::TransactionAccounts;
use payment_gateway::parser::TransactionMeta;
use payment_gateway::parser::extract_memo_from_logs;
use payment_gateway::parser::parse_transaction;
use payment_gateway::parser::payment_to_confirmation_job;

fn annotated(keys: &[&str]) -> TransactionAccounts {
    TransactionAccounts::Annotated(
        keys.iter().map(|k| AnnotatedAccount { pubkey: k.to_string() }).collect(),
    )
}

fn simple_tx(
    pre: Vec<u64>,
    post: Vec<u64>,
    accounts: TransactionAccounts,
    logs: Option<Vec<String>>,
) -> RawTransaction {
    RawTransaction {
        meta: Some(TransactionMeta {
            failed: false,
            pre_balances: pre,
            post_balances: post,
            log_messages: logs,
        }),
        accounts,
        block_time: Some(1_700_000_000),
    }
}

#[test]
fn memo_extracted_from_matching_line() {
    let logs = Some(vec![
        "Program 11111111111111111111111111111111 invoke [1]".to_string(),
        "Program log: Memo (len 13): \"PAY-ABCD1234\"".to_string(),
        "Program 11111111111111111111111111111111 success".to_string(),
    ]);
    assert_eq!(extract_memo_from_logs(&logs), Some("PAY-ABCD1234".to_string()));
}

#[test]
fn memo_absent_without_matching_line() {
    let logs = Some(vec![
        "Program 11111111111111111111111111111111 invoke [1]".to_string(),
        "Program 11111111111111111111111111111111 success".to_string(),
    ]);
    assert_eq!(extract_memo_from_logs(&logs), None);
    assert_eq!(extract_memo_from_logs(&None), None);
    assert_eq!(extract_memo_from_logs(&Some(vec![])), None);
}

#[test]
fn memo_malformed_quotes_yield_none() {
    // A single quote gives start == end: no payload.
    let logs = Some(vec!["Program log: Memo (len 1): \"".to_string()]);
    assert_eq!(extract_memo_from_logs(&logs), None);
    // No quotes at all.
    let logs = Some(vec!["Program log: Memo without quotes".to_string()]);
    assert_eq!(extract_memo_from_logs(&logs), None);
}

#[test]
fn memo_first_matching_line_wins() {
    let logs = Some(vec![
        "Program log: Memo (len 5): \"FIRST\"".to_string(),
        "Program log: Memo (len 6): \"SECOND\"".to_string(),
    ]);
    assert_eq!(extract_memo_from_logs(&logs), Some("FIRST".to_string()));
}

#[test]
fn memo_payload_spans_first_to_last_quote() {
    let logs = Some(vec!["Program log: Memo (len 7): \"A\"B\"C\"".to_string()]);
    assert_eq!(extract_memo_from_logs(&logs), Some("A\"B\"C".to_string()));
}

#[test]
fn parse_produces_signal_for_incoming_transfer() {
    let tx = simple_tx(
        vec![5_000_000_000, 1_000_000_000],
        vec![4_000_000_000, 2_000_000_000],
        annotated(&["sender111", "merchant222"]),
        Some(vec!["Program log: Memo (len 12): \"PAY-ABCD1234\"".to_string()]),
    );
    let p = parse_transaction(&tx, "sig-1", "merchant222").expect("signal expected");
    assert_eq!(p.signature, "sig-1");
    assert_eq!(p.amount_lamports, 1_000_000_000);
    assert_eq!(p.sender_address, "sender111");
    assert_eq!(p.receiver_address, "merchant222");
    assert_eq!(p.memo, Some("PAY-ABCD1234".to_string()));
    assert_eq!(p.block_time, Some(1_700_000_000));
}

#[test]
fn parse_raw_key_list_resolves_the_same_position() {
    let tx = simple_tx(
        vec![5_000_000_000, 1_000_000_000],
        vec![4_000_000_000, 2_000_000_000],
        TransactionAccounts::RawKeys(vec!["sender111".to_string(), "merchant222".to_string()]),
        None,
    );
    let p = parse_transaction(&tx, "sig-raw", "merchant222").expect("signal expected");
    assert_eq!(p.amount_lamports, 1_000_000_000);
    assert_eq!(p.sender_address, "sender111");
    assert_eq!(p.memo, None);
}

#[test]
fn parse_rejects_nonpositive_delta() {
    // Outgoing transfer: balance falls.
    let tx = simple_tx(
        vec![1_000, 2_000_000_000],
        vec![2_000, 1_000_000_000],
        annotated(&["other", "merchant222"]),
        None,
    );
    assert!(parse_transaction(&tx, "sig-2", "merchant222").is_none());
    // Zero delta.
    let tx = simple_tx(
        vec![1_000, 7_777],
        vec![9_000, 7_777],
        annotated(&["other", "merchant222"]),
        None,
    );
    assert!(parse_transaction(&tx, "sig-3", "merchant222").is_none());
}

#[test]
fn parse_rejects_missing_watched_address() {
    let tx = simple_tx(
        vec![1_000],
        vec![2_000],
        annotated(&["someone-else"]),
        None,
    );
    assert!(parse_transaction(&tx, "sig-4", "merchant222").is_none());
}

#[test]
fn parse_rejects_failed_transaction() {
    let tx = RawTransaction {
        meta: Some(TransactionMeta {
            failed: true,
            pre_balances: vec![0, 0],
            post_balances: vec![0, 1_000],
            log_messages: None,
        }),
        accounts: annotated(&["a", "merchant222"]),
        block_time: None,
    };
    assert!(parse_transaction(&tx, "sig-5", "merchant222").is_none());
}

#[test]
fn parse_rejects_unsupported_encoding_and_missing_meta() {
    let tx = RawTransaction {
        meta: Some(TransactionMeta {
            failed: false,
            pre_balances: vec![0],
            post_balances: vec![1],
            log_messages: None,
        }),
        accounts: TransactionAccounts::Unsupported,
        block_time: None,
    };
    assert!(parse_transaction(&tx, "sig-6", "merchant222").is_none());
    let tx = RawTransaction {
        meta: None,
        accounts: annotated(&["merchant222"]),
        block_time: None,
    };
    assert!(parse_transaction(&tx, "sig-7", "merchant222").is_none());
}

#[test]
fn parse_rejects_balances_shorter_than_position() {
    let tx = simple_tx(
        vec![1_000],
        vec![1_000],
        annotated(&["sender111", "merchant222"]),
        None,
    );
    assert!(parse_transaction(&tx, "sig-8", "merchant222").is_none());
}

#[test]
fn parse_bounds_delta_to_the_chain_unit() {
    // A delta beyond the signed 64-bit unit cannot be represented.
    let tx = simple_tx(
        vec![0, 0],
        vec![0, u64::MAX],
        annotated(&["sender111", "merchant222"]),
        None,
    );
    assert!(parse_transaction(&tx, "sig-max", "merchant222").is_none());
    // The largest representable delta still parses.
    let tx = simple_tx(
        vec![0, 0],
        vec![0, i64::MAX as u64],
        annotated(&["sender111", "merchant222"]),
        None,
    );
    let p = parse_transaction(&tx, "sig-fit", "merchant222").expect("signal expected");
    assert_eq!(p.amount_lamports, i64::MAX);
}

#[test]
fn confirmation_job_requires_memo() {
    let p = ParsedPayment {
        signature: "sig-9".to_string(),
        amount_lamports: 42,
        sender_address: "sender111".to_string(),
        receiver_address: "merchant222".to_string(),
        memo: None,
        block_time: Some(123),
    };
    assert!(payment_to_confirmation_job(p).is_none());
}

#[test]
fn confirmation_job_carries_signal_fields() {
    let p = ParsedPayment {
        signature: "sig-10".to_string(),
        amount_lamports: 42,
        sender_address: "sender111".to_string(),
        receiver_address: "merchant222".to_string(),
        memo: Some("PAY-ABCD1234".to_string()),
        block_time: Some(123),
    };
    let j = payment_to_confirmation_job(p).expect("job expected");
    assert_eq!(j.job_id, "sig-10");
    assert_eq!(j.tx_sig, "sig-10");
    assert_eq!(j.memo, "PAY-ABCD1234");
    assert_eq!(j.sender_address, "sender111");
    assert_eq!(j.amount_lamports, 42);
    assert_eq!(j.paid_at, Some(123));
}
