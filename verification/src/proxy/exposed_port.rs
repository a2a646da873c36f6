//! Port mappings, written `EXTERNAL:INTERNAL`.

use std::str::FromStr;
use vstd::prelude::*;
use vstd::string::*;

verus! {

/// A port on the host that is forwarded to a port of the guest.
#[derive(Debug, Clone, Copy, PartialEq, Eq, Structural)]
pub struct ExposedPort {
    pub external_port: u16,
    pub internal_port: u16,
}

/// Why a string is not a port mapping.
#[derive(Debug, Clone, Copy, PartialEq, Eq, Structural)]
pub enum ExposedPortError {
    /// The string is not two parts with one colon between them.
    InvalidFormat,
    /// The part before the colon is not a port number.
    InvalidExternalPort,
    /// The part after the colon is not a port number.
    InvalidInternalPort,
}

/// Whether `c` is one of `0` to `9`.
pub open spec fn is_digit(c: char) -> bool {
    '0' <= c <= '9'
}

/// Whether `s` consists of decimal digits only.
pub open spec fn all_digits(s: Seq<char>) -> bool {
    forall|i: int| 0 <= i < s.len() ==> is_digit(#[trigger] s[i])
}

/// The number that a string of decimal digits spells.
pub open spec fn decimal_value(s: Seq<char>) -> nat
    decreases s.len(),
{
    if s.len() == 0 {
        0
    } else {
        decimal_value(s.drop_last()) * 10 + (s.last() as u32 - '0' as u32) as nat
    }
}

/// The port number that `s` spells: one or more decimal digits, with an
/// optional `+` in front, whose value fits in sixteen bits.
pub open spec fn parse_port(s: Seq<char>) -> Option<u16> {
    let digits = if s.len() > 0 && s[0] == '+' {
        s.subrange(1, s.len() as int)
    } else {
        s
    };
    if digits.len() > 0 && all_digits(digits) && decimal_value(digits) <= u16::MAX {
        Some(decimal_value(digits) as u16)
    } else {
        None
    }
}

/// Whether `s` has a colon at `at` and nowhere else.
pub open spec fn only_colon_at(s: Seq<char>, at: int) -> bool {
    &&& 0 <= at < s.len()
    &&& s[at] == ':'
    &&& forall|j: int| 0 <= j < s.len() && j != at ==> #[trigger] s[j] != ':'
}

/// The port mapping that `s` spells. The string must hold exactly one
/// colon; what stands before it is the external port and what stands after
/// it the internal port. Of two bad ports the external one is reported.
pub open spec fn parse_exposed_port(s: Seq<char>) -> Result<ExposedPort, ExposedPortError> {
    if exists|at: int| only_colon_at(s, at) {
        let at = choose|at: int| only_colon_at(s, at);
        match parse_port(s.subrange(0, at)) {
            None => Err(ExposedPortError::InvalidExternalPort),
            Some(external_port) => match parse_port(s.subrange(at + 1, s.len() as int)) {
                None => Err(ExposedPortError::InvalidInternalPort),
                Some(internal_port) => Ok(ExposedPort { external_port, internal_port }),
            },
        }
    } else {
        Err(ExposedPortError::InvalidFormat)
    }
}

/// A string of digits spells at least what any of its prefixes spells.
proof fn lemma_decimal_value_prefix(s: Seq<char>, k: int)
    requires
        0 <= k <= s.len(),
    ensures
        decimal_value(s.take(k)) <= decimal_value(s),
    decreases s.len() - k,
{
    if k == s.len() {
        assert(s.take(k) =~= s);
    } else {
        lemma_decimal_value_prefix(s.drop_last(), k);
        assert(s.drop_last().take(k) =~= s.take(k));
    }
}

/// Reads the port number that the characters of `s` from `from` up to `to`
/// spell.
fn parse_port_between(s: &str, from: usize, to: usize) -> (port: Option<u16>)
    requires
        from <= to <= s@.len(),
    ensures
        port == parse_port(s@.subrange(from as int, to as int)),
{
    let ghost whole = s@.subrange(from as int, to as int);
    let mut k: usize = from;
    if from < to && s.get_char(from) == '+' {
        k = from + 1;
    }
    let start = k;
    let ghost digits = s@.subrange(start as int, to as int);
    assert(digits =~= if whole.len() > 0 && whole[0] == '+' {
        whole.subrange(1, whole.len() as int)
    } else {
        whole
    });
    if start == to {
        return None;
    }
    let mut value: u32 = 0;
    while k < to
        invariant
            from <= start <= k <= to <= s@.len(),
            whole == s@.subrange(from as int, to as int),
            digits == s@.subrange(start as int, to as int),
            digits == if whole.len() > 0 && whole[0] == '+' {
                whole.subrange(1, whole.len() as int)
            } else {
                whole
            },
            all_digits(digits.take(k - start)),
            value == decimal_value(digits.take(k - start)),
            value <= u16::MAX,
        decreases to - k,
    {
        let c = s.get_char(k);
        let ghost prefix = digits.take(k - start);
        let ghost longer = digits.take(k - start + 1);
        proof {
            assert(digits[k - start] == c);
            assert(longer.drop_last() =~= prefix);
            assert(longer.last() == c);
        }
        if c < '0' || c > '9' {
            assert(!is_digit(digits[k - start]));
            return None;
        }
        let digit: u32 = c as u32 - '0' as u32;
        value = value * 10 + digit;
        if value > 0xffff {
            proof {
                lemma_decimal_value_prefix(digits, k - start + 1);
            }
            return None;
        }
        k += 1;
    }
    assert(digits.take(k - start) =~= digits);
    Some(value as u16)
}

impl ExposedPort {
    /// Reads a port mapping written `EXTERNAL:INTERNAL`.
    pub fn parse(s: &str) -> (parsed: Result<ExposedPort, ExposedPortError>)
        ensures
            parsed == parse_exposed_port(s@),
    {
        let len = s.unicode_len();
        let mut colons: u8 = 0;
        let mut at: usize = 0;
        let mut k: usize = 0;
        while k < len
            invariant
                k <= len == s@.len(),
                colons <= 2,
                colons == 0 ==> forall|j: int| 0 <= j < k ==> s@[j] != ':',
                colons >= 1 ==> at < k && s@[at as int] == ':',
                colons == 1 ==> forall|j: int| 0 <= j < k && j != at ==> s@[j] != ':',
                colons == 2 ==> exists|j: int| 0 <= j < k && j != at && s@[j] == ':',
            decreases len - k,
        {
            if s.get_char(k) == ':' {
                if colons == 0 {
                    at = k;
                    colons = 1;
                } else {
                    colons = 2;
                }
            }
            k += 1;
        }
        if colons != 1 {
            assert forall|other: int| !only_colon_at(s@, other) by {
                if colons == 2 && only_colon_at(s@, other) {
                    let j = choose|j: int| 0 <= j < k && j != at && s@[j] == ':';
                    assert(s@[at as int] == ':');
                }
            }
            return Err(ExposedPortError::InvalidFormat);
        }
        proof {
            assert(only_colon_at(s@, at as int));
            let chosen = choose|other: int| only_colon_at(s@, other);
            assert(chosen == at);
        }
        let external_port = match parse_port_between(s, 0, at) {
            Some(port) => port,
            None => {
                return Err(ExposedPortError::InvalidExternalPort);
            },
        };
        let internal_port = match parse_port_between(s, at + 1, len) {
            Some(port) => port,
            None => {
                return Err(ExposedPortError::InvalidInternalPort);
            },
        };
        Ok(ExposedPort { external_port, internal_port })
    }
}

impl Default for ExposedPort {
    fn default() -> (port: ExposedPort)
        ensures
            port == (ExposedPort { external_port: 0, internal_port: 0 }),
    {
        ExposedPort { external_port: 0, internal_port: 0 }
    }
}

impl FromStr for ExposedPort {
    type Err = ExposedPortError;

    fn from_str(s: &str) -> (parsed: Result<ExposedPort, ExposedPortError>)
        ensures
            parsed == parse_exposed_port(s@),
    {
        ExposedPort::parse(s)
    }
}

} // verus!
