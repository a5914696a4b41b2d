//! Configuration assembly.  The process boundary reads the environment and
//! hands the raw optional values over; turning them into a configuration —
//! defaults, the port number's decimal parse, which values are required —
//! is decided here.

use vstd::prelude::*;
use vstd::string::*;

verus! {

/// Holds every setting the services need.
pub struct Config {
    pub server_host: String,
    pub server_port: u16,
    pub database_url: String,
    pub redis_url: String,
    pub solana_rpc_url: String,
    pub jwt_secret: String,
}

/// Why configuration assembly failed.
#[derive(Clone, Copy, PartialEq, Eq, Structural, Debug)]
pub enum ConfigError {
    InvalidPort,
    MissingDatabaseUrl,
    MissingJwtSecret,
}

/// A decimal digit.
pub open spec fn is_digit(c: char) -> bool {
    '0' <= c && c <= '9'
}

/// The value of a decimal digit.
pub open spec fn digit_val(c: char) -> int {
    c as int - '0' as int
}

/// Every character is a decimal digit.
pub open spec fn all_digits(s: Seq<char>) -> bool {
    forall|i: int| 0 <= i < s.len() ==> is_digit(#[trigger] s[i])
}

/// The number a digit string denotes.
pub open spec fn digits_val(s: Seq<char>) -> int
    decreases s.len(),
{
    if s.len() == 0 {
        0
    } else {
        digits_val(s.drop_last()) * 10 + digit_val(s.last())
    }
}

proof fn lemma_digits_val_nonneg(s: Seq<char>)
    requires
        all_digits(s),
    ensures
        digits_val(s) >= 0,
    decreases s.len(),
{
    if s.len() > 0 {
        assert(all_digits(s.drop_last()));
        lemma_digits_val_nonneg(s.drop_last());
    }
}

/// A digit string's value never falls when more digits follow.
proof fn lemma_digits_val_prefix(s: Seq<char>, k: int)
    requires
        all_digits(s),
        0 <= k <= s.len(),
    ensures
        digits_val(s.subrange(0, k)) <= digits_val(s),
    decreases s.len() - k,
{
    if k < s.len() {
        lemma_digits_val_prefix(s, k + 1);
        let p = s.subrange(0, k);
        let q = s.subrange(0, k + 1);
        assert(q.drop_last() =~= p);
        assert(all_digits(p));
        lemma_digits_val_nonneg(p);
        assert(digits_val(q) == digits_val(p) * 10 + digit_val(q.last()));
    } else {
        assert(s.subrange(0, k) =~= s);
    }
}

/// The digits of a decimal string: everything after an optional leading
/// plus sign.
pub open spec fn parse_body(s: Seq<char>) -> Seq<char> {
    if s.len() > 0 && s[0] == '+' {
        s.drop_first()
    } else {
        s
    }
}

/// What Rust's `u16` decimal parse accepts: an optional leading plus sign,
/// then at least one digit and nothing else, denoting a value that fits.
pub open spec fn parse_u16_spec(s: Seq<char>) -> Option<u16> {
    let body = parse_body(s);
    if body.len() == 0 || !all_digits(body) {
        None
    } else if digits_val(body) > u16::MAX {
        None
    } else {
        Some(digits_val(body) as u16)
    }
}

/// Parses a decimal port number as Rust's `u16` parse would.
pub fn parse_u16(s: &str) -> (r: Option<u16>)
    ensures
        r == parse_u16_spec(s@),
{
    let n = s.unicode_len();
    let mut i: usize = 0;
    if n > 0 && s.get_char(0) == '+' {
        i = 1;
    }
    let ghost body = s@.subrange(i as int, n as int);
    proof {
        if s@.len() > 0 && s@[0] == '+' {
            assert(body =~= s@.drop_first());
        } else {
            assert(body =~= s@);
        }
    }
    if i == n {
        return None;
    }
    let start = i;
    let mut acc: u32 = 0;
    while i < n
        invariant
            start <= i <= n,
            start <= 1,
            n == s@.len(),
            body == s@.subrange(start as int, n as int),
            body == parse_body(s@),
            all_digits(s@.subrange(start as int, i as int)),
            acc <= u16::MAX,
            acc == digits_val(s@.subrange(start as int, i as int)),
        decreases n - i,
    {
        let c = s.get_char(i);
        if !(c >= '0' && c <= '9') {
            proof {
                assert(body[i - start] == c);
                assert(!all_digits(body));
            }
            return None;
        }
        let d = (c as u32) - ('0' as u32);
        proof {
            let nxt = s@.subrange(start as int, i as int + 1);
            assert(nxt.drop_last() =~= s@.subrange(start as int, i as int));
            assert(nxt.last() == c);
            assert(d == digit_val(c));
            assert forall|k: int| 0 <= k < nxt.len() implies is_digit(#[trigger] nxt[k]) by {
                if k < nxt.len() - 1 {
                    assert(nxt[k] == s@.subrange(start as int, i as int)[k]);
                }
            }
            assert(all_digits(nxt));
        }
        acc = acc * 10 + d;
        i = i + 1;
        if acc > 65535 {
            proof {
                if all_digits(body) {
                    assert(s@.subrange(start as int, i as int) =~= body.subrange(0, i - start));
                    lemma_digits_val_prefix(body, i - start);
                }
            }
            return None;
        }
    }
    proof {
        assert(s@.subrange(start as int, i as int) =~= body);
    }
    Some(acc as u16)
}

impl Config {
    /// Assembles a configuration from raw environment values.
    ///
    /// The host defaults to all interfaces, the port to 3000; the queue and
    /// chain endpoints have well-known defaults; the database address and
    /// the token secret are required.  A present but unparseable port is
    /// refused first, then a missing database address, then a missing
    /// secret.
    pub fn from_values(
        host: Option<String>,
        port: Option<String>,
        database_url: Option<String>,
        redis_url: Option<String>,
        solana_rpc_url: Option<String>,
        jwt_secret: Option<String>,
    ) -> (r: Result<Config, ConfigError>)
        ensures
            match r {
                Ok(c) => {
                    &&& c.server_host@ == (match host {
                        Some(h) => h@,
                        None => "0.0.0.0"@,
                    })
                    &&& (match port {
                        Some(p) => parse_u16_spec(p@) == Some(c.server_port),
                        None => c.server_port == 3000,
                    })
                    &&& (database_url matches Some(d) && c.database_url@ == d@)
                    &&& c.redis_url@ == (match redis_url {
                        Some(u) => u@,
                        None => "redis://127.0.0.1:6379"@,
                    })
                    &&& c.solana_rpc_url@ == (match solana_rpc_url {
                        Some(u) => u@,
                        None => "https://api.mainnet-beta.solana.com"@,
                    })
                    &&& (jwt_secret matches Some(j) && c.jwt_secret@ == j@)
                },
                Err(ConfigError::InvalidPort) => port matches Some(p) && parse_u16_spec(p@)
                    is None,
                Err(ConfigError::MissingDatabaseUrl) => (match port {
                    Some(p) => parse_u16_spec(p@) is Some,
                    None => true,
                }) && database_url is None,
                Err(ConfigError::MissingJwtSecret) => (match port {
                    Some(p) => parse_u16_spec(p@) is Some,
                    None => true,
                }) && database_url is Some && jwt_secret is None,
            },
    {
        let server_port: u16 = match &port {
            Some(p) => match parse_u16(p.as_str()) {
                Some(v) => v,
                None => {
                    return Err(ConfigError::InvalidPort);
                },
            },
            None => 3000,
        };
        let server_host = match host {
            Some(h) => h,
            None => {
                proof {
                    reveal_strlit("0.0.0.0");
                }
                String::from_str("0.0.0.0")
            },
        };
        let database_url = match database_url {
            Some(d) => d,
            None => {
                return Err(ConfigError::MissingDatabaseUrl);
            },
        };
        let redis_url = match redis_url {
            Some(u) => u,
            None => {
                proof {
                    reveal_strlit("redis://127.0.0.1:6379");
                }
                String::from_str("redis://127.0.0.1:6379")
            },
        };
        let solana_rpc_url = match solana_rpc_url {
            Some(u) => u,
            None => {
                proof {
                    reveal_strlit("https://api.mainnet-beta.solana.com");
                }
                String::from_str("https://api.mainnet-beta.solana.com")
            },
        };
        let jwt_secret = match jwt_secret {
            Some(j) => j,
            None => {
                return Err(ConfigError::MissingJwtSecret);
            },
        };
        Ok(Config { server_host, server_port, database_url, redis_url, solana_rpc_url, jwt_secret })
    }
}

} // verus!
