use vstd::prelude::*;

use crate::error::VideoGenError;
use crate::log::LogMode;
use crate::text::{chars_of, decimal, push_decimal, push_str};

verus! {

/// The mode chosen by the command-line flags: `--json` wins over `--quiet`.
pub fn log_mode(json: bool, quiet: bool) -> (mode: LogMode)
    ensures
        mode == if json {
            LogMode::Json
        } else if quiet {
            LogMode::Quiet
        } else {
            LogMode::Text
        },
{
    if json {
        LogMode::Json
    } else if quiet {
        LogMode::Quiet
    } else {
        LogMode::Text
    }
}

pub open spec fn is_digit(c: char) -> bool {
    '0' <= c && c <= '9'
}

/// The value of a string of decimal digits.
pub open spec fn digits_value(s: Seq<char>) -> nat
    decreases s.len(),
{
    if s.len() == 0 {
        0
    } else {
        digits_value(s.drop_last()) * 10 + ((s.last() as u32) - ('0' as u32)) as nat
    }
}

/// The text of an unsigned number without its optional leading `+`.
pub open spec fn unsigned_body(s: Seq<char>) -> Seq<char> {
    if s.len() > 0 && s[0] == '+' {
        s.drop_first()
    } else {
        s
    }
}

/// What `str::parse::<u32>` gives: an optional `+`, then at least one ASCII
/// digit and nothing else, with a value that fits in 32 bits.
pub open spec fn parsed_u32(s: Seq<char>) -> Option<u32> {
    let body = unsigned_body(s);
    if body.len() > 0 && (forall|i: int| 0 <= i < body.len() ==> is_digit(#[trigger] body[i]))
        && digits_value(body) <= u32::MAX {
        Some(digits_value(body) as u32)
    } else {
        None
    }
}

proof fn lemma_digits_value_grows(s: Seq<char>, k: int)
    requires
        0 <= k <= s.len(),
        forall|i: int| 0 <= i < s.len() ==> is_digit(#[trigger] s[i]),
    ensures
        digits_value(s.take(k)) <= digits_value(s),
    decreases s.len() - k,
{
    if k < s.len() {
        lemma_digits_value_grows(s, k + 1);
        assert(s.take(k + 1).drop_last() =~= s.take(k));
        assert(s.take(k + 1).last() == s[k]);
    } else {
        assert(s.take(k) =~= s);
    }
}

/// Parses an unsigned 32-bit number as `str::parse::<u32>` does.
pub fn parse_u32(s: &str) -> (r: Option<u32>)
    ensures
        r == parsed_u32(s@),
{
    let cs = chars_of(s);
    let start: usize = if cs.len() > 0 && cs[0] == '+' { 1 } else { 0 };
    let ghost body = unsigned_body(cs@);
    assert(body =~= cs@.skip(start as int));
    if start == cs.len() {
        return None;
    }
    let mut value: u64 = 0;
    let mut i: usize = start;
    assert(body.take(0) =~= Seq::<char>::empty());
    while i < cs.len()
        invariant
            start <= i <= cs@.len(),
            cs@ == s@,
            body == unsigned_body(s@),
            body == cs@.skip(start as int),
            value == digits_value(body.take(i - start)),
            value <= u32::MAX,
            forall|j: int| 0 <= j < i - start ==> is_digit(#[trigger] body[j]),
        decreases cs@.len() - i,
    {
        let c = cs[i];
        assert(body[i - start] == c);
        if !('0' <= c && c <= '9') {
            assert(!is_digit(body[i - start]));
            return None;
        }
        assert(body.take(i - start + 1).drop_last() =~= body.take(i - start));
        assert(body.take(i - start + 1).last() == c);
        let next: u64 = value * 10 + ((c as u32) - ('0' as u32)) as u64;
        assert(next == digits_value(body.take(i - start + 1)));
        if next > 0xffff_ffffu64 {
            proof {
                if forall|j: int| 0 <= j < body.len() ==> is_digit(#[trigger] body[j]) {
                    lemma_digits_value_grows(body, i - start + 1);
                }
            }
            return None;
        }
        value = next;
        i = i + 1;
    }
    assert(body.take(i - start) =~= body);
    Some(value as u32)
}

} // verus!

verus! {

pub open spec fn integer_range_message(label: Seq<char>, value: Seq<char>, min: u32, max: u32) -> Seq<
    char,
> {
    "--"@ + label + ": expected integer in ["@ + decimal(min as nat) + ","@ + decimal(max as nat)
        + "], got \""@ + value + "\""@
}

/// Reads an integer flag: its value must parse as an unsigned 32-bit number
/// within `[min, max]`, else the user gets an error that names the flag and
/// the range.
pub fn parse_integer(label: &str, value: &str, min: u32, max: u32) -> (res: Result<u32, VideoGenError>)
    ensures
        match parsed_u32(value@) {
            Some(n) if min <= n <= max => res == Ok::<u32, VideoGenError>(n),
            _ => res matches Err(e) && e.spec_kind() == crate::error::ErrorKind::User
                && e.spec_message() == integer_range_message(label@, value@, min, max),
        },
{
    match parse_u32(value) {
        Some(n) => if min <= n && n <= max {
            return Ok(n);
        },
        None => {},
    }
    let mut msg = String::new();
    push_str(&mut msg, "--");
    push_str(&mut msg, label);
    push_str(&mut msg, ": expected integer in [");
    push_decimal(&mut msg, min as u64);
    push_str(&mut msg, ",");
    push_decimal(&mut msg, max as u64);
    push_str(&mut msg, "], got \"");
    push_str(&mut msg, value);
    push_str(&mut msg, "\"");
    Err(VideoGenError::user(msg))
}

pub open spec fn non_negative_message(label: Seq<char>, value: Seq<char>) -> Seq<char> {
    "--"@ + label + ": expected a non-negative number, got \""@ + value + "\""@
}

/// The user error for a duration flag whose value is not a non-negative
/// number.
pub fn non_negative_error(label: &str, value: &str) -> (e: VideoGenError)
    ensures
        e.spec_kind() == crate::error::ErrorKind::User,
        e.spec_message() == non_negative_message(label@, value@),
{
    let mut msg = String::new();
    push_str(&mut msg, "--");
    push_str(&mut msg, label);
    push_str(&mut msg, ": expected a non-negative number, got \"");
    push_str(&mut msg, value);
    push_str(&mut msg, "\"");
    VideoGenError::user(msg)
}

} // verus!

verus! {

proof fn lemma_digit_value(k: nat)
    requires
        k < 10,
    ensures
        is_digit(crate::text::digit_char(k)),
        ((crate::text::digit_char(k) as u32) - ('0' as u32)) as nat == k,
{
}

proof fn lemma_decimal_digits(n: nat)
    ensures
        crate::text::decimal(n).len() > 0,
        forall|i: int|
            0 <= i < crate::text::decimal(n).len() ==> is_digit(#[trigger] crate::text::decimal(n)[i]),
        digits_value(crate::text::decimal(n)) == n,
    decreases n,
{
    let d = crate::text::decimal(n);
    lemma_digit_value(n % 10);
    if n < 10 {
        assert(d.drop_last() =~= Seq::<char>::empty());
        assert(d.last() == crate::text::digit_char(n));
        assert(digits_value(d.drop_last()) == 0);
    }
    if n >= 10 {
        lemma_decimal_digits(n / 10);
        let p = crate::text::decimal(n / 10);
        assert(d == p.push(crate::text::digit_char(n % 10)));
        assert(d.drop_last() =~= p);
        assert(d.last() == crate::text::digit_char(n % 10));
        assert(digits_value(d) == digits_value(p) * 10 + n % 10);
        assert((n / 10) * 10 + n % 10 == n);
        assert forall|i: int| 0 <= i < d.len() implies is_digit(#[trigger] d[i]) by {
            if i < p.len() {
                assert(d[i] == p[i]);
            }
        }
    }
}

/// Reading back the decimal text of a 32-bit number gives the number.
pub proof fn law_parse_reads_decimal(n: u32)
    ensures
        parsed_u32(crate::text::decimal(n as nat)) == Some(n),
{
    lemma_decimal_digits(n as nat);
    let d = crate::text::decimal(n as nat);
    assert(!(d[0] == '+'));
    assert(unsigned_body(d) == d);
}

} // verus!
