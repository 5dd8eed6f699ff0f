//! Steps of a flow as far as the library decides on them: their kinds, the
//! top-level rule, and the parameters of the sleep and script steps.
use vstd::prelude::*;

use crate::executor::secs_to_millis;
use crate::executor::millis_of;
use crate::ramp::ConfigError;

verus! {

/// The kind of a step.
#[derive(Clone, Copy, Debug, PartialEq, Eq, Structural)]
pub enum StepKind {
    HttpRequest,
    Sleep,
    RunScript,
    LoadGen,
}

/// Checks that every top-level step of a flow is a load generator; the
/// error names the first one that is not.
pub fn validate_flow(kinds: &Vec<StepKind>) -> (r: Result<(), ConfigError>)
    ensures
        r.is_ok() <==> forall|i: int| 0 <= i < kinds.len() ==> #[trigger] kinds@[i] == StepKind::LoadGen,
        r.is_err() ==> exists|i: usize|
            r == Err::<(), ConfigError>(ConfigError::NotLoadGen { index: i }) && i < kinds.len()
                && kinds@[i as int] != StepKind::LoadGen && forall|j: int|
                0 <= j < i ==> #[trigger] kinds@[j] == StepKind::LoadGen,
{
    let mut i: usize = 0;
    while i < kinds.len()
        invariant
            i <= kinds.len(),
            forall|j: int| 0 <= j < i ==> #[trigger] kinds@[j] == StepKind::LoadGen,
        decreases kinds.len() - i,
    {
        if kinds[i] != StepKind::LoadGen {
            return Err(ConfigError::NotLoadGen { index: i });
        }
        i = i + 1;
    }
    Ok(())
}

/// Whether `c` is an ASCII decimal digit.
pub open spec fn is_digit(c: char) -> bool {
    '0' <= c && c <= '9'
}

/// The number that the decimal digits `d` write.
pub open spec fn digits_value(d: Seq<char>) -> int
    decreases d.len(),
{
    if d.len() == 0 {
        0
    } else {
        digits_value(d.drop_last()) * 10 + (d.last() as int - '0' as int)
    }
}

/// The digits of a decimal text: what follows an optional leading `+`.
pub open spec fn digits_of(s: Seq<char>) -> Seq<char> {
    if s.len() > 0 && s[0] == '+' {
        s.drop_first()
    } else {
        s
    }
}

/// `s` writes a whole number of seconds that fits in a `u64`.
pub open spec fn is_seconds(s: Seq<char>) -> bool {
    &&& digits_of(s).len() > 0
    &&& forall|i: int| 0 <= i < digits_of(s).len() ==> #[trigger] is_digit(digits_of(s)[i])
    &&& digits_value(digits_of(s)) <= u64::MAX
}

proof fn lemma_digits_value_grows(d: Seq<char>, i: int)
    requires
        0 <= i <= d.len(),
        forall|k: int| 0 <= k < d.len() ==> #[trigger] is_digit(d[k]),
    ensures
        digits_value(d.subrange(0, i)) <= digits_value(d),
        0 <= digits_value(d.subrange(0, i)),
    decreases d.len() - i,
{
    if i < d.len() {
        lemma_digits_value_grows(d, i + 1);
        let p = d.subrange(0, i + 1);
        assert(p.drop_last() =~= d.subrange(0, i));
        assert(is_digit(d[i]));
        assert(p.last() == d[i]);
    } else {
        assert(d.subrange(0, i) =~= d);
        lemma_digits_value_nonneg(d);
    }
}

proof fn lemma_digits_value_nonneg(d: Seq<char>)
    requires
        forall|k: int| 0 <= k < d.len() ==> #[trigger] is_digit(d[k]),
    ensures
        0 <= digits_value(d),
    decreases d.len(),
{
    if d.len() > 0 {
        assert(is_digit(d.last()));
        lemma_digits_value_nonneg(d.drop_last());
    }
}

/// Reads a whole number of seconds: an optional `+` and decimal digits,
/// whose value fits in a `u64`.
pub fn parse_seconds(s: &str) -> (r: Option<u64>)
    ensures
        r.is_some() <==> is_seconds(s@),
        r.is_some() ==> r.unwrap() == digits_value(digits_of(s@)),
{
    let c = crate::interpolate::to_chars(s);
    let n = c.len();
    let start: usize = if n > 0 && c[0] == '+' {
        1
    } else {
        0
    };
    let ghost d = digits_of(s@);
    assert(d =~= c@.subrange(start as int, n as int));
    if start >= n {
        return None;
    }
    let mut v: u64 = 0;
    let mut i: usize = start;
    while i < n
        invariant
            c@ == s@,
            n == c.len(),
            start <= i <= n,
            d == c@.subrange(start as int, n as int),
            d == digits_of(s@),
            forall|k: int| 0 <= k < i - start ==> #[trigger] is_digit(d[k]),
            v == digits_value(d.subrange(0, i - start)),
        decreases n - i,
    {
        let ch = c[i];
        if !('0' <= ch && ch <= '9') {
            assert(!is_digit(d[i - start]));
            return None;
        }
        let digit = (ch as u32 - '0' as u32) as u64;
        let ghost next = d.subrange(0, i - start + 1);
        assert(next.drop_last() =~= d.subrange(0, i - start));
        assert(next.last() == ch);
        if v > 1844674407370955161 || (v == 1844674407370955161 && digit > 5) {
            proof {
                assert(digits_value(next) > u64::MAX);
                if forall|k: int| 0 <= k < d.len() ==> #[trigger] is_digit(d[k]) {
                    lemma_digits_value_grows(d, i - start + 1);
                }
            }
            return None;
        }
        v = v * 10 + digit;
        i = i + 1;
    }
    assert(d.subrange(0, n - start) =~= d);
    Some(v)
}

/// Parameters of a sleep step.
#[derive(Debug)]
pub struct SleepParam {
    /// Whole seconds, as text.
    pub duration: String,
}

impl SleepParam {
    /// The number of seconds to sleep; none when `duration` is not a whole
    /// number of seconds.
    pub fn seconds(&self) -> (r: Option<u64>)
        ensures
            r.is_some() <==> is_seconds(self.duration@),
            r.is_some() ==> r.unwrap() == digits_value(digits_of(self.duration@)),
    {
        parse_seconds(self.duration.as_str())
    }
}

/// How long a sleep of `seconds` lasts when `remaining_ms` of the user's
/// time is left: never past the user's deadline.
pub fn sleep_millis(seconds: u64, remaining_ms: Option<u64>) -> (r: u64)
    ensures
        match remaining_ms {
            Some(t) => r == if millis_of(seconds) < t {
                millis_of(seconds)
            } else {
                t as int
            },
            None => r == millis_of(seconds),
        },
{
    let wanted = secs_to_millis(seconds);
    match remaining_ms {
        Some(t) => if wanted < t {
            wanted
        } else {
            t
        },
        None => wanted,
    }
}

/// Parameters of a script step.
#[derive(Debug)]
pub struct RhaiCodeParam {
    /// The script to run in the user's variable scope.
    pub code: String,
}

} // verus!
