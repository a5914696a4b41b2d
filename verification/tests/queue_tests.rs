use payment_gateway::queue::ConfirmationJob;
use payment_gateway::queue::JobQueue;
use payment_gateway::queue::PaymentJob;
use payment_gateway::time::normalize_block_time;
use payment_gateway::worker::paid_at_from_wire;

fn job(payment_id: &str, sig: &str) -> ConfirmationJob {
    ConfirmationJob {
        payment_id: payment_id.to_string(),
        memo: "PAY-ABCD1234".to_string(),
        sender_address: "sender111".to_string(),
        tx_sig: sig.to_string(),
        amount_lamports: 5,
        paid_at: None,
    }
}

#[test]
fn confirmation_jobs_come_out_in_order() {
    let mut q = JobQueue::new();
    assert!(q.pop_confirmation_job().is_none());
    q.push_confirmation_job(job("id-1", "sig-1"));
    q.push_confirmation_job(job("id-2", "sig-2"));
    assert_eq!(q.pop_confirmation_job().unwrap().tx_sig, "sig-1");
    assert_eq!(q.pop_confirmation_job().unwrap().tx_sig, "sig-2");
    assert!(q.pop_confirmation_job().is_none());
}

#[test]
fn payment_jobs_come_out_in_order() {
    let mut q = JobQueue::new();
    q.push_payment_job(PaymentJob {
        job_id: "j1".to_string(),
        amount: 1,
        memo: None,
        sender: None,
    });
    q.push_payment_job(PaymentJob {
        job_id: "j2".to_string(),
        amount: 2,
        memo: Some("PAY-AAAA1111".to_string()),
        sender: Some("s".to_string()),
    });
    assert_eq!(q.pop_payment_job().unwrap().job_id, "j1");
    assert_eq!(q.pop_payment_job().unwrap().job_id, "j2");
    assert!(q.pop_payment_job().is_none());
}

#[test]
fn ledger_remembers_marked_keys() {
    let mut q = JobQueue::new();
    let key = "sig-1".to_string();
    assert!(!q.is_job_processed(&key));
    q.mark_job_processed(&key);
    assert!(q.is_job_processed(&key));
    assert!(!q.is_job_processed(&"sig-2".to_string()));
    // Marking twice changes nothing.
    q.mark_job_processed(&key);
    assert!(q.is_job_processed(&key));
}

#[test]
fn wire_paid_at_parses_rfc3339() {
    assert_eq!(
        paid_at_from_wire(&Some("1970-01-01T00:00:00Z".to_string())),
        Some(0)
    );
    assert_eq!(
        paid_at_from_wire(&Some("2024-01-01T00:00:00Z".to_string())),
        Some(1_704_067_200)
    );
    assert_eq!(
        paid_at_from_wire(&Some("2024-01-01T01:00:00+01:00".to_string())),
        Some(1_704_067_200)
    );
    assert_eq!(paid_at_from_wire(&Some("yesterday".to_string())), None);
    assert_eq!(paid_at_from_wire(&None), None);
}

#[test]
fn block_time_in_calendar_range_is_kept() {
    assert_eq!(normalize_block_time(1_431_648_000), 1_431_648_000);
    assert_eq!(normalize_block_time(0), 0);
    assert_eq!(normalize_block_time(-1), -1);
}
