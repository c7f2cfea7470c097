use vstd::prelude::*;

verus! {

/// The listen port used when none is configured.
pub const DEFAULT_PORT: u16 = 3002;

/// Startup configuration: the upstream credential and the listen port.
pub struct Config {
    pub token: String,
    pub port: u16,
}

/// Why the startup configuration was rejected.
#[derive(Clone, Copy, PartialEq, Eq, Structural, Debug)]
pub enum ConfigError {
    /// The upstream credential is not set: the process must not start.
    MissingCredential,
    /// The configured port is not a decimal number below 65536.
    InvalidPort,
}

/// The character is a decimal digit.
pub open spec fn is_digit(c: char) -> bool {
    '0' <= c && c <= '9'
}

/// The number a digit string denotes, read left to right.
pub open spec fn digits_val(s: Seq<char>) -> int
    decreases s.len(),
{
    if s.len() == 0 {
        0
    } else {
        digits_val(s.drop_last()) * 10 + (s.last() as u32 - 48)
    }
}

/// A port text is valid when it is nonempty, all digits, and denotes a
/// value that fits in sixteen bits.
pub open spec fn valid_port(s: Seq<char>) -> bool {
    &&& s.len() > 0
    &&& forall|i: int| 0 <= i < s.len() ==> is_digit(s[i])
    &&& digits_val(s) <= 65535
}

pub proof fn lemma_digits_val_nonneg(s: Seq<char>)
    requires
        forall|k: int| 0 <= k < s.len() ==> is_digit(s[k]),
    ensures
        digits_val(s) >= 0,
    decreases s.len(),
{
    if s.len() > 0 {
        assert(forall|k: int| 0 <= k < s.drop_last().len() ==> is_digit(s.drop_last()[k]));
        lemma_digits_val_nonneg(s.drop_last());
    }
}

/// Reading further digits never makes the denoted number smaller.
pub proof fn lemma_digits_val_prefix(s: Seq<char>, i: int)
    requires
        0 <= i <= s.len(),
        forall|k: int| 0 <= k < s.len() ==> is_digit(s[k]),
    ensures
        digits_val(s.subrange(0, i)) <= digits_val(s),
    decreases s.len() - i,
{
    if i == s.len() {
        assert(s.subrange(0, i) =~= s);
    } else {
        let shorter = s.subrange(0, i);
        let longer = s.subrange(0, i + 1);
        assert(longer.drop_last() =~= shorter);
        assert(longer.last() == s[i]);
        assert(forall|k: int| 0 <= k < shorter.len() ==> is_digit(shorter[k]));
        lemma_digits_val_nonneg(shorter);
        assert(digits_val(shorter) <= digits_val(longer));
        lemma_digits_val_prefix(s, i + 1);
    }
}

/// Parses a decimal port number: `Some` exactly on valid port texts.
pub fn parse_port(s: &str) -> (r: Option<u16>)
    ensures
        (r is Some) == valid_port(s@),
        r matches Some(p) ==> p as int == digits_val(s@),
{
    let len = s.unicode_len();
    if len == 0 {
        return None;
    }
    let mut acc: u32 = 0;
    let mut i: usize = 0;
    while i < len
        invariant
            len == s@.len(),
            i <= len,
            forall|k: int| 0 <= k < i ==> is_digit(s@[k]),
            acc == digits_val(s@.subrange(0, i as int)),
            acc <= 65535,
        decreases len - i,
    {
        let c = s.get_char(i);
        let cv: u32 = c as u32;
        if cv < 48 || cv > 57 {
            proof {
                assert(!is_digit(s@[i as int]));
            }
            return None;
        }
        let d: u32 = cv - 48;
        let acc2: u32 = acc * 10 + d;
        proof {
            assert(s@.subrange(0, i + 1).drop_last() =~= s@.subrange(0, i as int));
            assert(s@.subrange(0, i + 1).last() == s@[i as int]);
            assert(acc2 == digits_val(s@.subrange(0, i + 1)));
        }
        if acc2 > 65535 {
            proof {
                if forall|k: int| 0 <= k < s@.len() ==> is_digit(s@[k]) {
                    lemma_digits_val_prefix(s@, i + 1);
                    assert(digits_val(s@) > 65535);
                }
                assert(!valid_port(s@));
            }
            return None;
        }
        acc = acc2;
        i += 1;
    }
    proof {
        assert(s@.subrange(0, len as int) =~= s@);
    }
    Some(acc as u16)
}

/// Reads the startup configuration from the optional environment values.
/// A missing credential is fatal before anything else happens; a missing
/// port text falls back to the default; a malformed one is fatal too.
pub fn load_config(token: Option<String>, port_text: Option<String>) -> (r: Result<
    Config,
    ConfigError,
>)
    ensures
        token is None ==> r == Err::<Config, ConfigError>(ConfigError::MissingCredential),
        (token matches Some(t) ==> (match port_text {
            None => r matches Ok(c) && c.token == t && c.port == DEFAULT_PORT,
            Some(p) => {
                if valid_port(p@) {
                    r matches Ok(c) && c.token == t && c.port as int == digits_val(p@)
                } else {
                    r == Err::<Config, ConfigError>(ConfigError::InvalidPort)
                }
            },
        })),
{
    let t = match token {
        Some(t) => t,
        None => {
            return Err(ConfigError::MissingCredential);
        },
    };
    match port_text {
        None => Ok(Config { token: t, port: DEFAULT_PORT }),
        Some(p) => match parse_port(p.as_str()) {
            Some(port) => Ok(Config { token: t, port }),
            None => Err(ConfigError::InvalidPort),
        },
    }
}

} // verus!
