//! Memo tokens.  A memo is the sole correlation key between an off-chain
//! payment request and an on-chain transfer: `PAY-` followed by eight
//! uppercase hexadecimal characters, taken from a freshly drawn random
//! identifier.  On-chain memo text is matched literally against stored memos,
//! so this exact shape matters.

use vstd::prelude::*;

verus! {

/// A lowercase hexadecimal digit.
pub open spec fn is_hex_lower(c: char) -> bool {
    ('0' <= c && c <= '9') || ('a' <= c && c <= 'f')
}

/// A hexadecimal digit with letters in upper case.
pub open spec fn is_hex_upper(c: char) -> bool {
    ('0' <= c && c <= '9') || ('A' <= c && c <= 'F')
}

/// ASCII upper-casing of a lowercase hexadecimal digit.
pub open spec fn upper_hex_char(c: char) -> char {
    if c == 'a' {
        'A'
    } else if c == 'b' {
        'B'
    } else if c == 'c' {
        'C'
    } else if c == 'd' {
        'D'
    } else if c == 'e' {
        'E'
    } else if c == 'f' {
        'F'
    } else {
        c
    }
}

/// The canonical hyphenated rendering of a random identifier: 36 characters,
/// hyphens at positions 8, 13, 18 and 23, lowercase hexadecimal elsewhere.
pub open spec fn is_uuid_hyphenated(s: Seq<char>) -> bool {
    &&& s.len() == 36
    &&& forall|i: int|
        0 <= i < 36 ==> (if i == 8 || i == 13 || i == 18 || i == 23 {
            s[i] == '-'
        } else {
            is_hex_lower(#[trigger] s[i])
        })
}

/// The memo derived from an identifier string: `PAY-` then the first eight
/// characters, upper-cased.
pub open spec fn memo_of_uuid(u: Seq<char>) -> Seq<char> {
    "PAY-"@ + u.subrange(0, 8).map_values(|c: char| upper_hex_char(c))
}

/// A well-formed memo: `PAY-` and eight uppercase hexadecimal characters.
pub open spec fn is_well_formed_memo(m: Seq<char>) -> bool {
    &&& m.len() == 12
    &&& m.subrange(0, 4) == "PAY-"@
    &&& forall|i: int| 4 <= i < 12 ==> is_hex_upper(#[trigger] m[i])
}

/// Relies on uuid's `Uuid::new_v4` and its `Display` rendering: a freshly
/// drawn random identifier, shown as 36 characters of lowercase hexadecimal
/// with hyphens at positions 8, 13, 18 and 23.  Which identifier comes back
/// is up to the process's random source, so nothing more is promised.
#[verifier::external_body]
pub(crate) fn fresh_uuid_hyphenated() -> (r: String)
    ensures
        is_uuid_hyphenated(r@),
{
    uuid::Uuid::new_v4().to_string()
}

/// Appends the upper-cased image of one lowercase hexadecimal digit.
fn push_upper_hex(s: &mut String, c: char)
    requires
        is_hex_lower(c),
    ensures
        final(s)@ == old(s)@ + seq![upper_hex_char(c)],
{
    let ghost s0 = s@;
    proof {
        reveal_strlit("0");
        reveal_strlit("1");
        reveal_strlit("2");
        reveal_strlit("3");
        reveal_strlit("4");
        reveal_strlit("5");
        reveal_strlit("6");
        reveal_strlit("7");
        reveal_strlit("8");
        reveal_strlit("9");
        reveal_strlit("A");
        reveal_strlit("B");
        reveal_strlit("C");
        reveal_strlit("D");
        reveal_strlit("E");
        reveal_strlit("F");
    }
    match c {
        '0' => s.append("0"),
        '1' => s.append("1"),
        '2' => s.append("2"),
        '3' => s.append("3"),
        '4' => s.append("4"),
        '5' => s.append("5"),
        '6' => s.append("6"),
        '7' => s.append("7"),
        '8' => s.append("8"),
        '9' => s.append("9"),
        'a' => s.append("A"),
        'b' => s.append("B"),
        'c' => s.append("C"),
        'd' => s.append("D"),
        'e' => s.append("E"),
        _ => s.append("F"),
    }
    proof {
        assert(s@ =~= s0 + seq![upper_hex_char(c)]);
    }
}

/// Builds the memo for a given identifier string: `PAY-` followed by its
/// first eight characters, upper-cased.
pub fn memo_from_uuid(u: &str) -> (r: String)
    requires
        u@.len() >= 8,
        forall|i: int| 0 <= i < 8 ==> is_hex_lower(#[trigger] u@[i]),
    ensures
        r@ == memo_of_uuid(u@),
{
    proof {
        reveal_strlit("PAY-");
    }
    let mut r = String::from_str("PAY-");
    let mut i: usize = 0;
    while i < 8
        invariant
            0 <= i <= 8,
            u@.len() >= 8,
            forall|k: int| 0 <= k < 8 ==> is_hex_lower(#[trigger] u@[k]),
            r@ == "PAY-"@ + u@.subrange(0, i as int).map_values(|c: char| upper_hex_char(c)),
        decreases 8 - i,
    {
        let c = u.get_char(i);
        push_upper_hex(&mut r, c);
        proof {
            assert(u@.subrange(0, i as int + 1).map_values(|ch: char| upper_hex_char(ch))
                =~= u@.subrange(0, i as int).map_values(|ch: char| upper_hex_char(ch))
                    + seq![upper_hex_char(u@[i as int])]);
        }
        i = i + 1;
    }
    proof {
        assert(r@ =~= memo_of_uuid(u@));
    }
    r
}

/// Draws a fresh identifier and derives the request's memo from it.
/// Which memo comes back depends on the random source; its shape does not.
pub fn generate_memo() -> (r: String)
    ensures
        is_well_formed_memo(r@),
{
    let u = fresh_uuid_hyphenated();
    let m = memo_from_uuid(u.as_str());
    proof {
        reveal_strlit("PAY-");
        assert(m@.subrange(0, 4) =~= "PAY-"@);
        assert forall|i: int| 4 <= i < 12 implies is_hex_upper(#[trigger] m@[i]) by {
            assert(m@[i] == upper_hex_char(u@.subrange(0, 8)[i - 4]));
        }
    }
    m
}

/// Two identifiers that differ somewhere in their first eight characters
/// yield different memos: the memo keeps that prefix faithfully, only
/// upper-cased, and upper-casing is one-to-one on lowercase hexadecimal
/// digits.
pub proof fn lemma_memo_injective(a: Seq<char>, b: Seq<char>)
    requires
        is_uuid_hyphenated(a),
        is_uuid_hyphenated(b),
        a.subrange(0, 8) != b.subrange(0, 8),
    ensures
        memo_of_uuid(a) != memo_of_uuid(b),
{
    reveal_strlit("PAY-");
    let pa = a.subrange(0, 8);
    let pb = b.subrange(0, 8);
    if memo_of_uuid(a) == memo_of_uuid(b) {
        assert(pa.len() == 8 && pb.len() == 8);
        if forall|i: int| 0 <= i < 8 ==> pa[i] == #[trigger] pb[i] {
            assert(pa =~= pb);
            assert(false);
        }
        let i = choose|i: int| 0 <= i < 8 && pa[i] != pb[i];
        assert(memo_of_uuid(a)[4 + i] == upper_hex_char(pa[i]));
        assert(memo_of_uuid(b)[4 + i] == upper_hex_char(pb[i]));
        assert(is_hex_lower(a[i]) && is_hex_lower(b[i]));
        assert(pa[i] == a[i] && pb[i] == b[i]);
        assert(upper_hex_char(pa[i]) != upper_hex_char(pb[i]));
        assert(false);
    }
}

} // verus!
