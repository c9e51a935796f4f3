use vstd::prelude::*;
use vstd::string::*;

verus! {

/// The settings of a running service.
#[derive(Debug, Clone)]
pub struct AppConfig {
    /// Server host.
    pub host: String,
    /// Server port.
    pub port: u16,
    /// Connection string of the relational store.
    pub database_url: String,
    /// Secret that identity tokens are signed with.
    pub jwt_secret: String,
    /// Lifetime of identity tokens, in seconds.
    pub jwt_expiration: u64,
}

/// The character of a decimal digit.
pub open spec fn digit_char(d: nat) -> char {
    seq!['0', '1', '2', '3', '4', '5', '6', '7', '8', '9'][d as int]
}

/// The decimal text of a number, without leading zeros.
pub open spec fn decimal(n: nat) -> Seq<char>
    decreases n,
{
    if n < 10 {
        seq![digit_char(n)]
    } else {
        decimal(n / 10).push(digit_char(n % 10))
    }
}

fn digit_text(d: u16) -> (r: &'static str)
    requires
        d < 10,
    ensures
        r@ == seq![digit_char(d as nat)],
{
    proof {
        reveal_strlit("0");
        reveal_strlit("1");
        reveal_strlit("2");
        reveal_strlit("3");
        reveal_strlit("4");
        reveal_strlit("5");
        reveal_strlit("6");
        reveal_strlit("7");
        reveal_strlit("8");
        reveal_strlit("9");
    }
    let r = if d == 0 {
        "0"
    } else if d == 1 {
        "1"
    } else if d == 2 {
        "2"
    } else if d == 3 {
        "3"
    } else if d == 4 {
        "4"
    } else if d == 5 {
        "5"
    } else if d == 6 {
        "6"
    } else if d == 7 {
        "7"
    } else if d == 8 {
        "8"
    } else {
        "9"
    };
    assert(r@ =~= seq![digit_char(d as nat)]);
    r
}

fn push_decimal(out: &mut String, n: u16)
    ensures
        final(out)@ == old(out)@ + decimal(n as nat),
    decreases n,
{
    if n >= 10 {
        push_decimal(out, n / 10);
    }
    out.append(digit_text(n % 10));
    proof {
        if n >= 10 {
            assert(decimal(n as nat) == decimal((n / 10) as nat).push(digit_char((n % 10) as nat)));
        }
    }
    assert(out@ =~= old(out)@ + decimal(n as nat));
}

/// Why a configuration could not be made from its variables.
#[derive(Debug, Clone, Copy, PartialEq, Eq, Structural)]
pub enum ConfigError {
    InvalidPort,
    MissingDatabaseUrl,
    MissingJwtSecret,
    InvalidJwtExpiration,
}

/// Whether a character is an ASCII decimal digit.
pub open spec fn is_digit(c: char) -> bool {
    '0' <= c <= '9'
}

/// The value of a string of decimal digits.
pub open spec fn digits_value(s: Seq<char>) -> nat
    decreases s.len(),
{
    if s.len() == 0 {
        0
    } else {
        digits_value(s.drop_last()) * 10 + ((s.last() as nat) - ('0' as nat)) as nat
    }
}

/// The digits of an unsigned number's text: an optional leading `+` is dropped.
pub open spec fn unsigned_digits(s: Seq<char>) -> Seq<char> {
    if s.len() > 0 && s[0] == '+' {
        s.skip(1)
    } else {
        s
    }
}

/// The unsigned number that a text denotes, if it is at most `max`: an
/// optional `+` and one or more decimal digits, nothing else.
pub open spec fn parsed_unsigned(s: Seq<char>, max: nat) -> Option<nat> {
    let d = unsigned_digits(s);
    if d.len() > 0 && (forall|i: int| 0 <= i < d.len() ==> is_digit(#[trigger] d[i])) && digits_value(d) <= max {
        Some(digits_value(d))
    } else {
        None
    }
}

proof fn lemma_digits_value_grows(s: Seq<char>, k: int)
    requires
        0 <= k <= s.len(),
        forall|i: int| 0 <= i < s.len() ==> is_digit(#[trigger] s[i]),
    ensures
        digits_value(s.take(k)) <= digits_value(s),
    decreases s.len() - k,
{
    if k < s.len() {
        lemma_digits_value_grows(s, k + 1);
        assert(s.take(k + 1).drop_last() =~= s.take(k));
        let v = digits_value(s.take(k));
        assert(digits_value(s.take(k + 1)) >= v * 10) by (nonlinear_arith)
            requires digits_value(s.take(k + 1)) >= v * 10;
    } else {
        assert(s.take(k) =~= s);
    }
}

/// Reads an unsigned decimal number no greater than `max`: an optional `+`
/// and one or more digits.
pub fn parse_unsigned(s: &str, max: u64) -> (r: Option<u64>)
    ensures
        r matches Some(v) ==> parsed_unsigned(s@, max as nat) == Some(v as nat),
        r is None ==> parsed_unsigned(s@, max as nat) is None,
{
    let len = s.unicode_len();
    let mut start: usize = 0;
    if len > 0 && s.get_char(0) == '+' {
        start = 1;
    }
    let ghost d = unsigned_digits(s@);
    assert(d =~= s@.skip(start as int));
    if start == len {
        return None;
    }
    let mut acc: u64 = 0;
    let mut i: usize = start;
    while i < len
        invariant
            start <= i <= len,
            len == s@.len(),
            d == s@.skip(start as int),
            d == unsigned_digits(s@),
            forall|j: int| 0 <= j < i - start ==> is_digit(#[trigger] d[j]),
            acc as nat == digits_value(d.take(i - start)),
            acc <= max,
        decreases len - i,
    {
        let c = s.get_char(i);
        assert(c == d[i - start]);
        if c < '0' || c > '9' {
            assert(!is_digit(d[i - start]));
            return None;
        }
        let digit = (c as u32 - '0' as u32) as u64;
        assert(d.take(i - start + 1).drop_last() =~= d.take(i - start));
        assert(d.take(i - start + 1).last() == c);
        assert(digits_value(d.take(i - start + 1)) == acc * 10 + digit);
        if digit > max || acc > (max - digit) / 10 {
            proof {
                if digit <= max {
                    assert(acc * 10 + digit > max) by (nonlinear_arith)
                        requires acc > (max - digit) / 10, digit <= max;
                }
                assert forall|j: int| 0 <= j < i - start + 1 implies is_digit(#[trigger] d[j]) by {}
                if forall|j: int| 0 <= j < d.len() ==> is_digit(#[trigger] d[j]) {
                    lemma_digits_value_grows(d, i - start + 1);
                }
            }
            return None;
        }
        proof {
            assert(acc * 10 + digit <= max) by (nonlinear_arith)
                requires acc <= (max - digit) / 10, digit <= max;
        }
        acc = acc * 10 + digit;
        i += 1;
    }
    assert(d.take(len - start) =~= d);
    Some(acc)
}

/// The port that the variable gives: 8080 where it is unset.
pub open spec fn port_setting(port: Option<String>) -> Option<nat> {
    match port {
        None => Some(8080),
        Some(p) => parsed_unsigned(p@, u16::MAX as nat),
    }
}

/// The token lifetime that the variable gives: a day where it is unset. A
/// lifetime of zero is refused, since a token's expiry must come strictly
/// after its issue time.
pub open spec fn expiration_setting(exp: Option<String>) -> Option<nat> {
    match exp {
        None => Some(86400),
        Some(e) => match parsed_unsigned(e@, u64::MAX as nat) {
            Some(v) => if v > 0 { Some(v) } else { None },
            None => None,
        },
    }
}

/// The host that the variable gives: the loopback address where it is unset.
pub open spec fn host_setting(host: Option<String>) -> Seq<char> {
    match host {
        None => "127.0.0.1"@,
        Some(h) => h@,
    }
}

impl AppConfig {
    /// The configuration that the variables `HOST`, `PORT`, `DATABASE_URL`,
    /// `JWT_SECRET` and `JWT_EXPIRATION` give, checked in that order; `None`
    /// stands for an unset variable. The host, port and lifetime have
    /// defaults; the store's address and the secret are required, and the
    /// lifetime must be positive.
    pub fn from_vars(
        host: Option<String>,
        port: Option<String>,
        database_url: Option<String>,
        jwt_secret: Option<String>,
        jwt_expiration: Option<String>,
    ) -> (r: Result<AppConfig, ConfigError>)
        ensures
            port_setting(port) is None ==> r matches Err(ConfigError::InvalidPort),
            port_setting(port) is Some && database_url is None ==> r matches Err(ConfigError::MissingDatabaseUrl),
            port_setting(port) is Some && database_url is Some && jwt_secret is None
                ==> r matches Err(ConfigError::MissingJwtSecret),
            port_setting(port) is Some && database_url is Some && jwt_secret is Some
                && expiration_setting(jwt_expiration) is None ==> r matches Err(ConfigError::InvalidJwtExpiration),
            r matches Ok(c) ==> {
                &&& c.host@ == host_setting(host)
                &&& port_setting(port) == Some(c.port as nat)
                &&& database_url matches Some(u) && c.database_url@ == u@
                &&& jwt_secret matches Some(k) && c.jwt_secret@ == k@
                &&& expiration_setting(jwt_expiration) == Some(c.jwt_expiration as nat)
            },
            r is Ok <==> port_setting(port) is Some && database_url is Some && jwt_secret is Some
                && expiration_setting(jwt_expiration) is Some,
    {
        let host = match host {
            Some(h) => h,
            None => {
                proof {
                    reveal_strlit("127.0.0.1");
                }
                String::from_str("127.0.0.1")
            },
        };
        let port: u16 = match port {
            None => 8080,
            Some(p) => match parse_unsigned(p.as_str(), u16::MAX as u64) {
                Some(v) => v as u16,
                None => {
                    return Err(ConfigError::InvalidPort);
                },
            },
        };
        let database_url = match database_url {
            Some(u) => u,
            None => {
                return Err(ConfigError::MissingDatabaseUrl);
            },
        };
        let jwt_secret = match jwt_secret {
            Some(k) => k,
            None => {
                return Err(ConfigError::MissingJwtSecret);
            },
        };
        let jwt_expiration: u64 = match jwt_expiration {
            None => 86400,
            Some(e) => match parse_unsigned(e.as_str(), u64::MAX) {
                Some(v) => {
                    if v == 0 {
                        return Err(ConfigError::InvalidJwtExpiration);
                    }
                    v
                },
                None => {
                    return Err(ConfigError::InvalidJwtExpiration);
                },
            },
        };
        Ok(AppConfig { host, port, database_url, jwt_secret, jwt_expiration })
    }
    /// The server address in the form `host:port`.
    pub fn server_addr(&self) -> (r: String)
        ensures
            r@ == self.host@ + seq![':'] + decimal(self.port as nat),
    {
        let mut addr = self.host.clone();
        proof {
            reveal_strlit(":");
        }
        addr.append(":");
        push_decimal(&mut addr, self.port);
        assert(addr@ =~= self.host@ + seq![':'] + decimal(self.port as nat));
        addr
    }
}

} // verus!
