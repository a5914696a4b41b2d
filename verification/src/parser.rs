//! Transaction parsing: turning one raw chain transaction record into a
//! payment signal — amount received, sender, receiver, optional memo,
//! optional block time — or deciding that the record is not a payment to the
//! watched address.
//!
//! The transaction record is held as plain values: balances, account keys in
//! either of the two encodings the chain reports, and the emitted log lines.
//! The boundary that talks to the chain fills this record in.

use vstd::prelude::*;
use vstd::string::*;

use crate::time::normalize_block_time;

verus! {

// ---------------------------------------------------------------------------
// Character scanning
// ---------------------------------------------------------------------------
/// `p` occurs in `l` starting at position `i`.
pub open spec fn contains_at(l: Seq<char>, p: Seq<char>, i: int) -> bool {
    0 <= i && i + p.len() <= l.len() && l.subrange(i, i + p.len()) == p
}

/// `p` occurs somewhere in `l`.
pub open spec fn contains_seq(l: Seq<char>, p: Seq<char>) -> bool {
    exists|i: int| contains_at(l, p, i)
}

/// `c` occurs in `l`.
pub open spec fn has_char(l: Seq<char>, c: char) -> bool {
    exists|i: int| 0 <= i < l.len() && l[i] == c
}

/// `i` is the first occurrence of `c` in `l`.
pub open spec fn is_first_index_of(l: Seq<char>, c: char, i: int) -> bool {
    &&& 0 <= i < l.len()
    &&& l[i] == c
    &&& forall|k: int| 0 <= k < i ==> l[k] != c
}

/// `i` is the last occurrence of `c` in `l`.
pub open spec fn is_last_index_of(l: Seq<char>, c: char, i: int) -> bool {
    &&& 0 <= i < l.len()
    &&& l[i] == c
    &&& forall|k: int| i < k < l.len() ==> l[k] != c
}

/// The first occurrence of `c` in `l`; meaningful only when `has_char`.
pub open spec fn first_index_of(l: Seq<char>, c: char) -> int {
    choose|i: int| is_first_index_of(l, c, i)
}

/// The last occurrence of `c` in `l`; meaningful only when `has_char`.
pub open spec fn last_index_of(l: Seq<char>, c: char) -> int {
    choose|i: int| is_last_index_of(l, c, i)
}

pub proof fn lemma_first_index_agrees(l: Seq<char>, c: char, i: int)
    requires
        is_first_index_of(l, c, i),
    ensures
        first_index_of(l, c) == i,
{
    let j = first_index_of(l, c);
    assert(is_first_index_of(l, c, j));
}

pub proof fn lemma_last_index_agrees(l: Seq<char>, c: char, i: int)
    requires
        is_last_index_of(l, c, i),
    ensures
        last_index_of(l, c) == i,
{
    let j = last_index_of(l, c);
    assert(is_last_index_of(l, c, j));
}

/// Whether `p` occurs in `l` starting exactly at `i`, by character
/// comparison.
fn match_at(l: &str, p: &str, i: usize) -> (r: bool)
    requires
        i + p@.len() <= l@.len(),
        l@.len() <= usize::MAX,
    ensures
        r == contains_at(l@, p@, i as int),
{
    let m = p.unicode_len();
    let mut j: usize = 0;
    while j < m
        invariant
            0 <= j <= m,
            m == p@.len(),
            i + m <= l@.len(),
            l@.len() <= usize::MAX,
            forall|k: int| 0 <= k < j ==> l@[i + k] == p@[k],
        decreases m - j,
    {
        if l.get_char(i + j) != p.get_char(j) {
            proof {
                assert(l@.subrange(i as int, i as int + p@.len())[j as int] == l@[i + j]);
            }
            return false;
        }
        j = j + 1;
    }
    proof {
        assert(l@.subrange(i as int, i as int + p@.len()) =~= p@);
    }
    true
}

/// Whether `p` occurs anywhere in `l`.
fn str_contains(l: &str, p: &str) -> (r: bool)
    ensures
        r == contains_seq(l@, p@),
{
    let n = l.unicode_len();
    let m = p.unicode_len();
    if m > n {
        proof {
            assert(forall|i: int| !contains_at(l@, p@, i));
        }
        return false;
    }
    if m == 0 {
        proof {
            assert(l@.subrange(0, 0) =~= p@);
            assert(contains_at(l@, p@, 0));
        }
        return true;
    }
    let limit = n - m;
    let mut i: usize = 0;
    while i <= limit
        invariant
            0 <= i <= limit + 1,
            limit == n - m,
            1 <= m <= n,
            n == l@.len(),
            m == p@.len(),
            forall|k: int| 0 <= k < i ==> !contains_at(l@, p@, k),
        decreases limit + 1 - i,
    {
        if match_at(l, p, i) {
            return true;
        }
        i = i + 1;
    }
    proof {
        assert(forall|k: int| !contains_at(l@, p@, k));
    }
    false
}

/// The first occurrence of `c` in `l`, if any.
fn find_char_first(l: &str, c: char) -> (r: Option<usize>)
    ensures
        match r {
            Some(i) => is_first_index_of(l@, c, i as int),
            None => !has_char(l@, c),
        },
{
    let n = l.unicode_len();
    let mut i: usize = 0;
    while i < n
        invariant
            0 <= i <= n,
            n == l@.len(),
            forall|k: int| 0 <= k < i ==> l@[k] != c,
        decreases n - i,
    {
        if l.get_char(i) == c {
            return Some(i);
        }
        i = i + 1;
    }
    None
}

/// The last occurrence of `c` in `l`, if any.
fn find_char_last(l: &str, c: char) -> (r: Option<usize>)
    ensures
        match r {
            Some(i) => is_last_index_of(l@, c, i as int),
            None => !has_char(l@, c),
        },
{
    let n = l.unicode_len();
    let mut i: usize = n;
    while i > 0
        invariant
            0 <= i <= n,
            n == l@.len(),
            forall|k: int| i <= k < n ==> l@[k] != c,
        decreases i,
    {
        i = i - 1;
        if l.get_char(i) == c {
            return Some(i);
        }
    }
    None
}

// ---------------------------------------------------------------------------
// Memo extraction from log lines
// ---------------------------------------------------------------------------
/// The fragment that marks a memo-program log entry.
pub open spec fn memo_marker() -> Seq<char> {
    "Program log: Memo"@
}

/// The memo payload of one log line: present when the line carries the memo
/// marker and a well-formed quote pair, and equal to the text between the
/// first and the last double quote.
pub open spec fn line_memo(l: Seq<char>) -> Option<Seq<char>> {
    if contains_seq(l, memo_marker()) && has_char(l, '"') && first_index_of(l, '"')
        < last_index_of(l, '"') {
        Some(l.subrange(first_index_of(l, '"') + 1, last_index_of(l, '"')))
    } else {
        None
    }
}

/// The memo of a log set: the payload of the first line that yields one.
pub open spec fn extract_memo_seq(logs: Seq<Seq<char>>) -> Option<Seq<char>>
    decreases logs.len(),
{
    if logs.len() == 0 {
        None
    } else if line_memo(logs[0]) is Some {
        line_memo(logs[0])
    } else {
        extract_memo_seq(logs.drop_first())
    }
}

/// The memo of an optional log set; absent logs yield no memo.
pub open spec fn extract_memo_spec(logs: Option<Seq<Seq<char>>>) -> Option<Seq<char>> {
    match logs {
        Some(ls) => extract_memo_seq(ls),
        None => None,
    }
}

proof fn lemma_extract_skip(logs: Seq<Seq<char>>, k: int)
    requires
        0 <= k <= logs.len(),
        forall|j: int| 0 <= j < k ==> line_memo(#[trigger] logs[j]) is None,
    ensures
        extract_memo_seq(logs) == extract_memo_seq(logs.skip(k)),
    decreases k,
{
    if k > 0 {
        assert(line_memo(logs[0]) is None);
        lemma_extract_skip(logs.drop_first(), k - 1);
        assert(logs.drop_first().skip(k - 1) =~= logs.skip(k));
    } else {
        assert(logs.skip(0) =~= logs);
    }
}

/// The memo payload of one log line, if any.
fn line_memo_exec(l: &str) -> (r: Option<String>)
    ensures
        r.deep_view() == line_memo(l@),
{
    proof {
        reveal_strlit("Program log: Memo");
    }
    if !str_contains(l, "Program log: Memo") {
        return None;
    }
    let start = match find_char_first(l, '"') {
        Some(i) => i,
        None => {
            return None;
        },
    };
    let end = match find_char_last(l, '"') {
        Some(i) => i,
        None => {
            return None;
        },
    };
    proof {
        lemma_first_index_agrees(l@, '"', start as int);
        lemma_last_index_agrees(l@, '"', end as int);
    }
    if start < end {
        let payload = l.substring_char(start + 1, end);
        Some(payload.to_owned())
    } else {
        None
    }
}

/// Scans a transaction's log lines for a memo-program entry and extracts the
/// quoted payload of the first line that carries one.  Absent logs, no
/// matching line, or a malformed quote pair on every matching line yield no
/// memo.
pub fn extract_memo_from_logs(logs: &Option<Vec<String>>) -> (r: Option<String>)
    ensures
        r.deep_view() == extract_memo_spec(logs.deep_view()),
{
    let logs_vec = match logs {
        Some(v) => v,
        None => {
            return None;
        },
    };
    let n = logs_vec.len();
    let mut idx: usize = 0;
    while idx < n
        invariant
            0 <= idx <= n,
            n == logs_vec@.len(),
            logs.deep_view() == Some(logs_vec.deep_view()),
            forall|k: int| 0 <= k < idx ==> line_memo(#[trigger] logs_vec.deep_view()[k]) is None,
        decreases n - idx,
    {
        let line = &logs_vec[idx];
        let found = line_memo_exec(line.as_str());
        if found.is_some() {
            proof {
                lemma_extract_skip(logs_vec.deep_view(), idx as int);
                assert(logs_vec.deep_view().skip(idx as int)[0] == logs_vec.deep_view()[idx as int]);
            }
            return found;
        }
        idx = idx + 1;
    }
    proof {
        lemma_extract_skip(logs_vec.deep_view(), n as int);
    }
    None
}

/// The memo of a log set is the payload of its first line that yields one.
pub proof fn lemma_memo_first_match(logs: Seq<Seq<char>>, k: int)
    requires
        0 <= k < logs.len(),
        line_memo(logs[k]) is Some,
        forall|j: int| 0 <= j < k ==> line_memo(#[trigger] logs[j]) is None,
    ensures
        extract_memo_seq(logs) == line_memo(logs[k]),
{
    lemma_extract_skip(logs, k);
    assert(logs.skip(k)[0] == logs[k]);
}

/// A log set none of whose lines yields a memo has no memo.
pub proof fn lemma_no_memo_line(logs: Seq<Seq<char>>)
    requires
        forall|j: int| 0 <= j < logs.len() ==> line_memo(#[trigger] logs[j]) is None,
    ensures
        extract_memo_seq(logs) is None,
{
    lemma_extract_skip(logs, logs.len() as int);
    assert(logs.skip(logs.len() as int).len() == 0);
}

/// A line that carries the memo marker and a properly quoted payload — no
/// stray double quote before, inside or after it — yields exactly that
/// payload.
pub proof fn lemma_line_memo_quoted(pre: Seq<char>, x: Seq<char>, post: Seq<char>)
    requires
        !has_char(pre, '"'),
        !has_char(x, '"'),
        !has_char(post, '"'),
        contains_seq(pre + seq!['"'] + x + seq!['"'] + post, memo_marker()),
    ensures
        line_memo(pre + seq!['"'] + x + seq!['"'] + post) == Some(x),
{
    let l = pre + seq!['"'] + x + seq!['"'] + post;
    let fq = pre.len() as int;
    let lq = pre.len() + 1 + x.len() as int;
    assert(l[fq] == '"');
    assert(l[lq] == '"');
    assert(is_first_index_of(l, '"', fq)) by {
        assert forall|k: int| 0 <= k < fq implies l[k] != '"' by {
            assert(l[k] == pre[k]);
        }
    }
    assert(is_last_index_of(l, '"', lq)) by {
        assert forall|k: int| lq < k < l.len() implies l[k] != '"' by {
            assert(l[k] == post[k - lq - 1]);
        }
    }
    lemma_first_index_agrees(l, '"', fq);
    lemma_last_index_agrees(l, '"', lq);
    assert(l.subrange(fq + 1, lq) =~= x);
}

// ---------------------------------------------------------------------------
// The raw transaction record and its parse
// ---------------------------------------------------------------------------
/// One account entry of the structured (annotated) message encoding; the
/// parse reads only the key itself.
pub struct AnnotatedAccount {
    pub pubkey: String,
}

/// The account list of a transaction, in the encodings the chain reports:
/// a structured form with annotated entries, a raw key-list form, or an
/// encoding this parser does not support.
pub enum TransactionAccounts {
    Annotated(Vec<AnnotatedAccount>),
    RawKeys(Vec<String>),
    Unsupported,
}

/// Execution metadata of a transaction: outcome, balance snapshots and the
/// emitted log lines.
pub struct TransactionMeta {
    pub failed: bool,
    pub pre_balances: Vec<u64>,
    pub post_balances: Vec<u64>,
    pub log_messages: Option<Vec<String>>,
}

/// One raw transaction record, as handed over by the chain boundary.
pub struct RawTransaction {
    pub meta: Option<TransactionMeta>,
    pub accounts: TransactionAccounts,
    pub block_time: Option<i64>,
}

/// The account keys of the structured encoding, as character sequences.
pub open spec fn annotated_keys_view(v: Vec<AnnotatedAccount>) -> Seq<Seq<char>> {
    v@.map_values(|a: AnnotatedAccount| a.pubkey@)
}

/// The account keys an encoding exposes; `None` for an unsupported one.
/// Both supported encodings resolve to one and the same key list.
pub open spec fn account_keys_of(a: TransactionAccounts) -> Option<Seq<Seq<char>>> {
    match a {
        TransactionAccounts::Annotated(v) => Some(annotated_keys_view(v)),
        TransactionAccounts::RawKeys(v) => Some(v.deep_view()),
        TransactionAccounts::Unsupported => None,
    }
}

/// The watched address occurs in the key list.
pub open spec fn keys_contain(keys: Seq<Seq<char>>, w: Seq<char>) -> bool {
    exists|i: int| 0 <= i < keys.len() && keys[i] == w
}

/// `i` is the first position of the watched address in the key list.
pub open spec fn is_first_key_index(keys: Seq<Seq<char>>, w: Seq<char>, i: int) -> bool {
    &&& 0 <= i < keys.len()
    &&& keys[i] == w
    &&& forall|k: int| 0 <= k < i ==> keys[k] != w
}

/// The first position of the watched address; meaningful only when
/// `keys_contain`.
pub open spec fn key_position(keys: Seq<Seq<char>>, w: Seq<char>) -> int {
    choose|i: int| is_first_key_index(keys, w, i)
}

pub proof fn lemma_key_position_agrees(keys: Seq<Seq<char>>, w: Seq<char>, i: int)
    requires
        is_first_key_index(keys, w, i),
    ensures
        key_position(keys, w) == i,
{
    let j = key_position(keys, w);
    assert(is_first_key_index(keys, w, j));
}

/// The essence of a parsed signal: amount received, sender, memo.  The
/// signature is the caller's input and the block time is normalized against
/// the clock, so neither belongs here.
pub struct SignalCore {
    pub amount: int,
    pub sender: Seq<char>,
    pub memo: Option<Seq<char>>,
}

/// What parsing a raw transaction yields, up to block-time normalization:
///
/// no metadata, a failed execution, an unsupported encoding, a key list
/// without the watched address, balance snapshots too short for its
/// position, or a balance delta that is not a positive representable amount
/// all yield no signal; otherwise the signal carries the delta at the
/// watched position, the first account key as sender, and the memo the log
/// lines yield.
pub open spec fn parse_core(tx: RawTransaction, wallet: Seq<char>) -> Option<SignalCore> {
    match tx.meta {
        None => None,
        Some(meta) => if meta.failed {
            None
        } else {
            match account_keys_of(tx.accounts) {
                None => None,
                Some(keys) => if !keys_contain(keys, wallet) {
                    None
                } else {
                    let idx = key_position(keys, wallet);
                    if idx >= meta.pre_balances@.len() || idx >= meta.post_balances@.len() {
                        None
                    } else {
                        let delta = meta.post_balances@[idx] - meta.pre_balances@[idx];
                        if delta <= 0 || delta > i64::MAX {
                            None
                        } else {
                            Some(
                                SignalCore {
                                    amount: delta,
                                    sender: keys[0],
                                    memo: extract_memo_spec(meta.log_messages.deep_view()),
                                },
                            )
                        }
                    }
                },
            }
        },
    }
}

/// A signal, when one is produced, carries a positive amount that fits the
/// chain's integer unit: non-positive balance deltas never yield a signal.
pub proof fn lemma_signal_amount_positive(tx: RawTransaction, wallet: Seq<char>)
    ensures
        parse_core(tx, wallet) matches Some(core) ==> 0 < core.amount <= i64::MAX,
{
}

/// A transaction whose account list misses the watched address yields no
/// signal.
pub proof fn lemma_absent_address_yields_no_signal(tx: RawTransaction, wallet: Seq<char>)
    requires
        match account_keys_of(tx.accounts) {
            Some(keys) => !keys_contain(keys, wallet),
            None => true,
        },
    ensures
        parse_core(tx, wallet) is None,
{
}

/// Fully parsed payment data of one chain transaction.
pub struct ParsedPayment {
    pub signature: String,
    pub amount_lamports: i64,
    pub sender_address: String,
    pub receiver_address: String,
    pub memo: Option<String>,
    pub block_time: Option<i64>,
}

/// The first position of the watched address in a structured account list.
fn position_annotated(keys: &Vec<AnnotatedAccount>, w: &String) -> (r: Option<usize>)
    ensures
        match r {
            Some(i) => is_first_key_index(annotated_keys_view(*keys), w@, i as int),
            None => !keys_contain(annotated_keys_view(*keys), w@),
        },
{
    let n = keys.len();
    let mut i: usize = 0;
    while i < n
        invariant
            0 <= i <= n,
            n == keys@.len(),
            forall|k: int| 0 <= k < i ==> annotated_keys_view(*keys)[k] != w@,
        decreases n - i,
    {
        if keys[i].pubkey.eq(w) {
            return Some(i);
        }
        i = i + 1;
    }
    None
}

/// The first position of the watched address in a raw key list.
fn position_raw(keys: &Vec<String>, w: &String) -> (r: Option<usize>)
    ensures
        match r {
            Some(i) => is_first_key_index(keys.deep_view(), w@, i as int),
            None => !keys_contain(keys.deep_view(), w@),
        },
{
    let n = keys.len();
    let mut i: usize = 0;
    while i < n
        invariant
            0 <= i <= n,
            n == keys@.len(),
            forall|k: int| 0 <= k < i ==> keys.deep_view()[k] != w@,
        decreases n - i,
    {
        if keys[i].eq(w) {
            return Some(i);
        }
        i = i + 1;
    }
    None
}

/// Parses one raw transaction against the watched address.
///
/// A signal comes back exactly when `parse_core` yields one; it then carries
/// the given signature, the core's amount, sender and memo, the watched
/// address as receiver, and the chain's block time — kept as it is whenever
/// the calendar accepts it.
pub fn parse_transaction(tx: &RawTransaction, signature: &str, wallet_address: &str) -> (r:
    Option<ParsedPayment>)
    ensures
        (r is Some) == (parse_core(*tx, wallet_address@) is Some),
        r matches Some(p) ==> parse_core(*tx, wallet_address@) matches Some(core)
            && p.signature@ == signature@ && p.amount_lamports as int == core.amount
            && p.sender_address@ == core.sender && p.receiver_address@ == wallet_address@
            && p.memo.deep_view() == core.memo && (match tx.block_time {
            None => p.block_time is None,
            Some(t) => p.block_time matches Some(bt) && (-62135596800 <= t <= 253402300799
                ==> bt == t),
        }),
{
    let meta = match &tx.meta {
        Some(m) => m,
        None => {
            return None;
        },
    };
    if meta.failed {
        return None;
    }
    let w_owned: String = wallet_address.to_owned();
    let (sender, wallet_index): (String, usize) = match &tx.accounts {
        TransactionAccounts::Annotated(keys) => {
            match position_annotated(keys, &w_owned) {
                Some(idx) => {
                    proof {
                        lemma_key_position_agrees(
                            annotated_keys_view(*keys),
                            wallet_address@,
                            idx as int,
                        );
                    }
                    (keys[0].pubkey.clone(), idx)
                },
                None => {
                    return None;
                },
            }
        },
        TransactionAccounts::RawKeys(keys) => {
            match position_raw(keys, &w_owned) {
                Some(idx) => {
                    proof {
                        lemma_key_position_agrees(keys.deep_view(), wallet_address@, idx as int);
                    }
                    (keys[0].clone(), idx)
                },
                None => {
                    return None;
                },
            }
        },
        TransactionAccounts::Unsupported => {
            return None;
        },
    };
    if wallet_index >= meta.pre_balances.len() || wallet_index >= meta.post_balances.len() {
        return None;
    }
    let pre = meta.pre_balances[wallet_index];
    let post = meta.post_balances[wallet_index];
    if post <= pre {
        return None;
    }
    let delta = post - pre;
    if delta > i64::MAX as u64 {
        return None;
    }
    let amount_lamports = delta as i64;
    let memo = extract_memo_from_logs(&meta.log_messages);
    let block_time = match tx.block_time {
        Some(t) => Some(normalize_block_time(t)),
        None => None,
    };
    Some(
        ParsedPayment {
            signature: signature.to_owned(),
            amount_lamports,
            sender_address: sender,
            receiver_address: wallet_address.to_owned(),
            memo,
            block_time,
        },
    )
}

/// Payment confirmation job derived from a parsed signal, for the queue.
pub struct PaymentConfirmationJob {
    pub job_id: String,
    pub memo: String,
    pub sender_address: String,
    pub tx_sig: String,
    pub amount_lamports: i64,
    pub paid_at: Option<i64>,
}

/// Turns a signal into a confirmation job.  A signal without a memo cannot
/// be matched to a request and yields no job; otherwise the job's identifier
/// and signature both carry the transaction signature — the job's
/// idempotency key is content-addressed — and amount, sender, memo and time
/// come over unchanged.
pub fn payment_to_confirmation_job(payment: ParsedPayment) -> (r: Option<PaymentConfirmationJob>)
    ensures
        (r is Some) == (payment.memo is Some),
        r matches Some(j) ==> payment.memo matches Some(m) && j.job_id@ == payment.signature@
            && j.memo@ == m@ && j.sender_address@ == payment.sender_address@ && j.tx_sig@
            == payment.signature@ && j.amount_lamports == payment.amount_lamports && j.paid_at
            == payment.block_time,
{
    let memo = match payment.memo {
        Some(m) => m,
        None => {
            return None;
        },
    };
    Some(
        PaymentConfirmationJob {
            job_id: payment.signature.clone(),
            memo,
            sender_address: payment.sender_address,
            tx_sig: payment.signature,
            amount_lamports: payment.amount_lamports,
            paid_at: payment.block_time,
        },
    )
}

} // verus!
