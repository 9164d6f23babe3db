//! The configuration record and the parsing of the dock identifier it holds.

use vstd::prelude::*;

verus! {

/// Runtime configuration: which dock to track and which companion device to use.
pub struct Config {
    /// Thunderbolt dock UID as a hex string, e.g. `"0x003DA86E85A8CB00"`.
    pub dock_uid: String,
    /// Optional iPad name to target. If `None`, the first available Sidecar device is used.
    pub ipad_name: Option<String>,
}

/// Unicode `White_Space`, the characters that `str::trim` removes.
pub open spec fn is_white_space(c: char) -> bool {
    let u = c as u32;
    (0x09 <= u <= 0x0D) || u == 0x20 || u == 0x85 || u == 0xA0 || u == 0x1680 || (0x2000 <= u
        <= 0x200A) || u == 0x2028 || u == 0x2029 || u == 0x202F || u == 0x205F || u == 0x3000
}

/// The text without its leading white space.
pub open spec fn trim_start(s: Seq<char>) -> Seq<char>
    decreases s.len(),
{
    if s.len() > 0 && is_white_space(s[0]) {
        trim_start(s.drop_first())
    } else {
        s
    }
}

/// The text without its trailing white space.
pub open spec fn trim_end(s: Seq<char>) -> Seq<char>
    decreases s.len(),
{
    if s.len() > 0 && is_white_space(s.last()) {
        trim_end(s.drop_last())
    } else {
        s
    }
}

/// The text with every leading repetition of the two characters `a b` removed.
pub open spec fn strip_pair(s: Seq<char>, a: char, b: char) -> Seq<char>
    decreases s.len(),
{
    if s.len() >= 2 && s[0] == a && s[1] == b {
        strip_pair(s.subrange(2, s.len() as int), a, b)
    } else {
        s
    }
}

pub open spec fn is_hex_digit(c: char) -> bool {
    ('0' <= c <= '9') || ('a' <= c <= 'f') || ('A' <= c <= 'F')
}

pub open spec fn hex_digit_value(c: char) -> nat {
    if '0' <= c <= '9' {
        (c as u32 - '0' as u32) as nat
    } else if 'a' <= c <= 'f' {
        (c as u32 - 'a' as u32 + 10) as nat
    } else {
        (c as u32 - 'A' as u32 + 10) as nat
    }
}

/// The number that a string of hex digits writes, most significant first.
pub open spec fn hex_value(s: Seq<char>) -> nat
    decreases s.len(),
{
    if s.len() == 0 {
        0
    } else {
        hex_value(s.drop_last()) * 16 + hex_digit_value(s.last())
    }
}

pub open spec fn all_hex(s: Seq<char>) -> bool {
    forall|i: int| 0 <= i < s.len() ==> is_hex_digit(#[trigger] s[i])
}

/// Base-16 parsing of an unsigned 64-bit number as `u64::from_str_radix`
/// does it: an optional `+`, then at least one hex digit, and a value that fits.
pub open spec fn parse_hex_u64(s: Seq<char>) -> Option<u64> {
    let body = if s.len() > 0 && s[0] == '+' {
        s.drop_first()
    } else {
        s
    };
    if body.len() > 0 && all_hex(body) && hex_value(body) <= u64::MAX {
        Some(hex_value(body) as u64)
    } else {
        None
    }
}

/// The digits of a configured dock identifier: surrounding white space
/// trimmed, then any leading `0x`, then any leading `0X` removed.
pub open spec fn uid_digits(s: Seq<char>) -> Seq<char> {
    strip_pair(strip_pair(trim_end(trim_start(s)), '0', 'x'), '0', 'X')
}

/// The dock identifier that a configured text names, if any.
pub open spec fn parse_dock_uid(s: Seq<char>) -> Option<u64> {
    parse_hex_u64(uid_digits(s))
}

/// The error text for a dock identifier that does not parse.
pub open spec fn uid_error(s: Seq<char>) -> Seq<char> {
    "Invalid dock_uid '"@ + s + "': not a 64-bit hexadecimal number"@
}

fn is_white_space_char(c: char) -> (r: bool)
    ensures
        r == is_white_space(c),
{
    let u = c as u32;
    (0x09 <= u && u <= 0x0D) || u == 0x20 || u == 0x85 || u == 0xA0 || u == 0x1680 || (0x2000
        <= u && u <= 0x200A) || u == 0x2028 || u == 0x2029 || u == 0x202F || u == 0x205F || u
        == 0x3000
}

fn hex_digit(c: char) -> (r: Option<u64>)
    ensures
        r is Some == is_hex_digit(c),
        r is Some ==> r->0 == hex_digit_value(c),
{
    if '0' <= c && c <= '9' {
        Some((c as u32 - '0' as u32) as u64)
    } else if 'a' <= c && c <= 'f' {
        Some((c as u32 - 'a' as u32 + 10) as u64)
    } else if 'A' <= c && c <= 'F' {
        Some((c as u32 - 'A' as u32 + 10) as u64)
    } else {
        None
    }
}

/// The dock identifier that `s` names: surrounding white space and leading
/// `0x` / `0X` prefixes are dropped and the rest is read as base-16.
pub fn parse_uid_text(s: &str) -> (r: Option<u64>)
    ensures
        r == parse_dock_uid(s@),
{
    let n = s.unicode_len();
    let ghost cs = s@;
    let mut lo: usize = 0;
    assert(cs.subrange(0, n as int) == cs);
    while lo < n && is_white_space_char(s.get_char(lo))
        invariant
            n == cs.len(),
            cs == s@,
            lo <= n,
            trim_start(cs) == trim_start(cs.subrange(lo as int, n as int)),
        decreases n - lo,
    {
        assert(cs.subrange(lo as int, n as int).drop_first() == cs.subrange(lo + 1, n as int));
        lo = lo + 1;
    }
    assert(trim_start(cs) == cs.subrange(lo as int, n as int));
    let mut hi: usize = n;
    while hi > lo && is_white_space_char(s.get_char(hi - 1))
        invariant
            n == cs.len(),
            cs == s@,
            lo <= hi <= n,
            trim_end(trim_start(cs)) == trim_end(cs.subrange(lo as int, hi as int)),
        decreases hi,
    {
        assert(cs.subrange(lo as int, hi as int).drop_last() == cs.subrange(lo as int, hi - 1));
        hi = hi - 1;
    }
    assert(trim_end(trim_start(cs)) == cs.subrange(lo as int, hi as int));
    let ghost t = cs.subrange(lo as int, hi as int);
    while hi - lo >= 2 && s.get_char(lo) == '0' && s.get_char(lo + 1) == 'x'
        invariant
            n == cs.len(),
            cs == s@,
            lo <= hi <= n,
            strip_pair(t, '0', 'x') == strip_pair(cs.subrange(lo as int, hi as int), '0', 'x'),
        decreases hi - lo,
    {
        assert(cs.subrange(lo as int, hi as int).subrange(2, hi - lo) == cs.subrange(lo + 2, hi as int));
        lo = lo + 2;
    }
    let ghost t2 = cs.subrange(lo as int, hi as int);
    assert(strip_pair(t, '0', 'x') == t2);
    while hi - lo >= 2 && s.get_char(lo) == '0' && s.get_char(lo + 1) == 'X'
        invariant
            n == cs.len(),
            cs == s@,
            lo <= hi <= n,
            strip_pair(t2, '0', 'X') == strip_pair(cs.subrange(lo as int, hi as int), '0', 'X'),
        decreases hi - lo,
    {
        assert(cs.subrange(lo as int, hi as int).subrange(2, hi - lo) == cs.subrange(lo + 2, hi as int));
        lo = lo + 2;
    }
    let ghost digits = uid_digits(cs);
    assert(digits == cs.subrange(lo as int, hi as int));
    if lo < hi && s.get_char(lo) == '+' {
        assert(digits[0] == '+');
        assert(digits.drop_first() == cs.subrange(lo + 1, hi as int));
        lo = lo + 1;
    }
    let ghost body = cs.subrange(lo as int, hi as int);
    let ghost unsigned = if digits.len() > 0 && digits[0] == '+' {
        digits.drop_first()
    } else {
        digits
    };
    assert(body == unsigned);
    if lo == hi {
        return None;
    }
    let mut value: u64 = 0;
    let mut overflow = false;
    let mut i: usize = lo;
    while i < hi
        invariant
            n == cs.len(),
            cs == s@,
            lo <= i <= hi <= n,
            body == cs.subrange(lo as int, hi as int),
            body == unsigned,
            digits == uid_digits(cs),
            unsigned == (if digits.len() > 0 && digits[0] == '+' {
                digits.drop_first()
            } else {
                digits
            }),
            all_hex(cs.subrange(lo as int, i as int)),
            overflow ==> hex_value(cs.subrange(lo as int, i as int)) > u64::MAX,
            !overflow ==> value == hex_value(cs.subrange(lo as int, i as int)),
        decreases hi - i,
    {
        let c = s.get_char(i);
        let ghost prev = cs.subrange(lo as int, i as int);
        let ghost next = cs.subrange(lo as int, i + 1);
        assert(next.drop_last() == prev);
        match hex_digit(c) {
            None => {
                assert(body[i - lo] == c);
                assert(!all_hex(body));
                return None;
            },
            Some(d) => {
                if !overflow {
                    if value > 0x0FFF_FFFF_FFFF_FFFF {
                        overflow = true;
                    } else {
                        value = value * 16 + d;
                    }
                }
            },
        }
        i = i + 1;
    }
    assert(cs.subrange(lo as int, hi as int) == body);
    if overflow {
        None
    } else {
        Some(value)
    }
}

impl Config {
    /// Parse `dock_uid` from its hex string representation to a `u64`.
    pub fn dock_uid_u64(&self) -> (r: Result<u64, String>)
        ensures
            match parse_dock_uid(self.dock_uid@) {
                Some(v) => r == Ok::<u64, String>(v),
                None => r is Err && r->Err_0@ == uid_error(self.dock_uid@),
            },
    {
        match parse_uid_text(self.dock_uid.as_str()) {
            Some(v) => Ok(v),
            None => {
                let mut e = String::from_str("Invalid dock_uid '");
                e.append(self.dock_uid.as_str());
                e.append("': not a 64-bit hexadecimal number");
                Err(e)
            },
        }
    }
}

} // verus!
