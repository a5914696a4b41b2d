use payment_gateway::memo::generate_memo;
use payment_gateway::memo::memo_from_uuid;

#[test]
fn memo_from_uuid_uppercases_first_eight() {
    let m = memo_from_uuid("abcd1234-e29b-41d4-a716-446655440000");
    assert_eq!(m, "PAY-ABCD1234");
    let m = memo_from_uuid("00f0e9d8-0000-0000-0000-000000000000");
    assert_eq!(m, "PAY-00F0E9D8");
}

#[test]
fn generated_memo_has_the_published_shape() {
    let m = generate_memo();
    assert_eq!(m.len(), 12);
    assert!(m.starts_with("PAY-"));
    for c in m[4..].chars() {
        assert!(c.is_ascii_digit() || ('A' <= c && c <= 'F'));
    }
}

#[test]
fn distinct_identifier_prefixes_give_distinct_memos() {
    let a = memo_from_uuid("abcd1234-e29b-41d4-a716-446655440000");
    let b = memo_from_uuid("abcd1235-e29b-41d4-a716-446655440000");
    assert_ne!(a, b);
}
