//! Human-readable durations such as `30m`, `1h30m` or `2h30m45s`, in whole
//! seconds.
use vstd::prelude::*;

use crate::text::{
    all_digits, chars_of, decimal, digit_of, digits_value, is_digit, lemma_decimal, push_char,
    push_str, push_u64, push_seq, decimal_chars,
};

verus! {

/// Why a duration string was refused.
#[derive(Debug, Clone, Copy, PartialEq, Eq)]
pub enum DurationError {
    /// A unit letter (or other character) with no number in front of it.
    MissingNumber(char),
    /// A number that does not fit in 64 bits.
    NumberTooLarge,
    /// A number followed by something other than `s`, `m`, `h` or `d`.
    UnknownUnit(char),
    /// Trailing digits with no unit after them.
    MissingUnit,
    /// The parts add up to nothing (this includes the empty string).
    Zero,
}

/// Seconds per unit letter.
pub open spec fn unit_seconds(c: char) -> Option<nat> {
    if c == 's' {
        Some(1)
    } else if c == 'm' {
        Some(60)
    } else if c == 'h' {
        Some(3600)
    } else if c == 'd' {
        Some(86400)
    } else {
        None
    }
}

/// The scanner's state after some prefix: the first error met (if any), the
/// seconds added up so far, and the digits read since the last unit.
pub type ScanState = (Option<DurationError>, int, Seq<char>);

/// The scanner before reading anything.
pub open spec fn scan_start() -> ScanState {
    (None, 0, Seq::empty())
}

/// One step of the scanner.
pub open spec fn scan_step(st: ScanState, c: char) -> ScanState {
    if st.0 is Some {
        st
    } else if is_digit(c) {
        (None, st.1, st.2.push(c))
    } else if st.2.len() == 0 {
        (Some(DurationError::MissingNumber(c)), st.1, st.2)
    } else if digits_value(st.2) > u64::MAX {
        (Some(DurationError::NumberTooLarge), st.1, st.2)
    } else {
        match unit_seconds(c) {
            Some(u) => (None, st.1 + digits_value(st.2) * u, Seq::empty()),
            None => (Some(DurationError::UnknownUnit(c)), st.1, st.2),
        }
    }
}

/// The scanner's state after reading all of `s`, left to right.
pub open spec fn scan(s: Seq<char>) -> ScanState
    decreases s.len(),
{
    if s.len() == 0 {
        scan_start()
    } else {
        scan_step(scan(s.drop_last()), s.last())
    }
}

/// What a duration string means: its total in seconds, or why it is refused.
pub open spec fn spec_parse_duration(s: Seq<char>) -> Result<nat, DurationError> {
    let st = scan(s);
    if st.0 is Some {
        Err(st.0->0)
    } else if st.2.len() > 0 {
        Err(DurationError::MissingUnit)
    } else if st.1 <= 0 {
        Err(DurationError::Zero)
    } else {
        Ok(st.1 as nat)
    }
}

/// Every running total met while reading `s` fits in 64 bits; on longer
/// inputs the seconds counter would overflow.
pub open spec fn duration_fits(s: Seq<char>) -> bool {
    forall|i: int| 0 <= i <= s.len() ==> #[trigger] scan(s.take(i)).1 <= u64::MAX
}

/// `n` seconds written out, largest unit first, zero parts left out.
pub open spec fn format_part(k: nat, unit: char) -> Seq<char> {
    if k > 0 {
        decimal(k).push(unit)
    } else {
        Seq::empty()
    }
}

/// How `format_duration` writes `n` seconds: days, hours, minutes and
/// seconds, zero parts left out; `0s` for zero.
pub open spec fn spec_format_duration(n: nat) -> Seq<char> {
    if n == 0 {
        seq!['0', 's']
    } else {
        format_part(n / 86400, 'd') + format_part((n % 86400) / 3600, 'h') + format_part(
            (n % 3600) / 60,
            'm',
        ) + format_part(n % 60, 's')
    }
}

/// Reads `s` and reports `None` where a running total exceeds `u64::MAX`.
fn parse_duration_checked(s: &str) -> (r: Option<Result<u64, DurationError>>)
    ensures
        r is None <==> !duration_fits(s@),
        r matches Some(res) ==> match res {
            Ok(v) => spec_parse_duration(s@) == Ok::<nat, DurationError>(v as nat),
            Err(e) => spec_parse_duration(s@) == Err::<nat, DurationError>(e),
        },
{
    let cs = chars_of(s);
    let mut total: u64 = 0;
    let mut pending: Vec<char> = Vec::new();
    let mut failed: Option<DurationError> = None;
    let mut i: usize = 0;
    proof {
        assert(cs@.take(0) =~= Seq::<char>::empty());
    }
    while i < cs.len()
        invariant
            i <= cs.len(),
            cs@ == s@,
            scan(cs@.take(i as int)) == (failed, total as int, pending@),
            forall|j: int| 0 <= j <= i ==> #[trigger] scan(cs@.take(j)).1 <= u64::MAX,
            failed is None ==> all_digits(pending@),
        decreases cs.len() - i,
    {
        let c = cs[i];
        proof {
            assert(cs@.take(i + 1).drop_last() =~= cs@.take(i as int));
            assert(cs@.take(i + 1).last() == c);
        }
        if failed.is_none() {
            if '0' <= c && c <= '9' {
                let ghost old_pending = pending@;
                pending.push(c);
                proof {
                    assert(all_digits(pending@)) by {
                        assert forall|k: int| 0 <= k < pending@.len() implies is_digit(
                            #[trigger] pending@[k],
                        ) by {
                            if k < old_pending.len() {
                                assert(pending@[k] == old_pending[k]);
                            }
                        }
                    }
                }
            } else if pending.len() == 0 {
                failed = Some(DurationError::MissingNumber(c));
            } else {
                match crate::text::parse_digits(&pending) {
                    None => {
                        failed = Some(DurationError::NumberTooLarge);
                    },
                    Some(n) => {
                        let mult: u64 = if c == 's' {
                            1
                        } else if c == 'm' {
                            60
                        } else if c == 'h' {
                            3600
                        } else if c == 'd' {
                            86400
                        } else {
                            0
                        };
                        if mult == 0 {
                            failed = Some(DurationError::UnknownUnit(c));
                        } else {
                            assert((n as int) * (mult as int) <= 18446744073709551615int * 86400)
                                by (nonlinear_arith)
                                requires
                                    n <= u64::MAX,
                                    mult <= 86400,
                            ;
                            let wide: u128 = (total as u128) + (n as u128) * (mult as u128);
                            if wide > u64::MAX as u128 {
                                proof {
                                    assert(scan(cs@.take(i + 1)).1 == wide);
                                    assert(!duration_fits(s@)) by {
                                        assert(s@.take(i + 1) == cs@.take(i + 1));
                                    }
                                }
                                return None;
                            }
                            total = wide as u64;
                            pending = Vec::new();
                        }
                    },
                }
            }
        }
        i = i + 1;
    }
    proof {
        assert(cs@.take(cs.len() as int) =~= s@);
    }
    match failed {
        Some(e) => Some(Err(e)),
        None => {
            if pending.len() > 0 {
                Some(Err(DurationError::MissingUnit))
            } else if total == 0 {
                Some(Err(DurationError::Zero))
            } else {
                Some(Ok(total))
            }
        },
    }
}

/// Parses a duration such as `45s`, `30m`, `1h30m` or `2h30m45s` into whole
/// seconds. Each part is a decimal number followed by `s`, `m`, `h` or `d`;
/// the parts add up. An empty string, a number without unit, an unknown unit
/// or a total of zero is refused.
pub fn parse_duration(s: &str) -> (r: Result<u64, DurationError>)
    requires
        duration_fits(s@),
    ensures
        match r {
            Ok(v) => spec_parse_duration(s@) == Ok::<nat, DurationError>(v as nat),
            Err(e) => spec_parse_duration(s@) == Err::<nat, DurationError>(e),
        },
{
    match parse_duration_checked(s) {
        Some(r) => r,
        None => {
            proof {
                assert(false);
            }
            Err(DurationError::Zero)
        },
    }
}

/// Whether `parse_duration` may be called on `s`: false exactly when the
/// seconds would exceed `u64::MAX` along the way.
pub fn duration_in_range(s: &str) -> (r: bool)
    ensures
        r == duration_fits(s@),
{
    parse_duration_checked(s).is_some()
}

fn push_part(out: &mut String, k: u64, unit: char)
    ensures
        final(out)@ == old(out)@ + format_part(k as nat, unit),
{
    if k > 0 {
        push_u64(out, k);
        push_char(out, unit);
    } else {
        assert(old(out)@ + Seq::<char>::empty() =~= old(out)@);
    }
}

/// Writes `secs` seconds as days, hours, minutes and seconds, largest first,
/// leaving out zero parts: `5400` becomes `1h30m`, `0` becomes `0s`.
pub fn format_duration(secs: u64) -> (s: String)
    ensures
        s@ == spec_format_duration(secs as nat),
{
    if secs == 0 {
        let mut s = String::new();
        push_char(&mut s, '0');
        push_char(&mut s, 's');
        assert(s@ =~= seq!['0', 's']);
        return s;
    }
    let days = secs / 86400;
    let hours = (secs % 86400) / 3600;
    let mins = (secs % 3600) / 60;
    let rest = secs % 60;
    let mut s = String::new();
    push_part(&mut s, days, 'd');
    push_part(&mut s, hours, 'h');
    push_part(&mut s, mins, 'm');
    push_part(&mut s, rest, 's');
    assert(s@ =~= spec_format_duration(secs as nat));
    s
}

/// The message the command line prints for a refused duration.
pub open spec fn spec_error_message(e: DurationError, input: Seq<char>) -> Seq<char> {
    let head = "invalid duration '"@ + input + "': "@;
    match e {
        DurationError::MissingNumber(c) => head + "expected a number before '"@ + seq![c, '\''],
        DurationError::NumberTooLarge => "number too large to fit in target type"@,
        DurationError::UnknownUnit(c) => head + "unknown unit '"@ + seq![c] + "' (use s, m, h, d)"@,
        DurationError::MissingUnit => head + "number without unit (use s, m, h, d)"@,
        DurationError::Zero => head + "duration must be greater than zero"@,
    }
}

impl DurationError {
    /// The message for this error about `input`.
    pub fn message(&self, input: &str) -> (m: String)
        ensures
            m@ == spec_error_message(*self, input@),
    {
        let mut m = String::new();
        match self {
            DurationError::NumberTooLarge => {
                push_str(&mut m, "number too large to fit in target type");
                return m;
            },
            _ => {},
        }
        push_str(&mut m, "invalid duration '");
        push_str(&mut m, input);
        push_str(&mut m, "': ");
        match self {
            DurationError::MissingNumber(c) => {
                push_str(&mut m, "expected a number before '");
                push_char(&mut m, *c);
                push_char(&mut m, '\'');
            },
            DurationError::UnknownUnit(c) => {
                push_str(&mut m, "unknown unit '");
                push_char(&mut m, *c);
                push_str(&mut m, "' (use s, m, h, d)");
            },
            DurationError::MissingUnit => {
                push_str(&mut m, "number without unit (use s, m, h, d)");
            },
            _ => {
                push_str(&mut m, "duration must be greater than zero");
            },
        }
        assert(m@ =~= spec_error_message(*self, input@));
        m
    }
}


/// The scanner run from state `st` over `q`.
pub open spec fn scan_from(st: ScanState, q: Seq<char>) -> ScanState
    decreases q.len(),
{
    if q.len() == 0 {
        st
    } else {
        scan_step(scan_from(st, q.drop_last()), q.last())
    }
}

proof fn lemma_scan_append(p: Seq<char>, q: Seq<char>)
    ensures
        scan(p + q) == scan_from(scan(p), q),
    decreases q.len(),
{
    if q.len() == 0 {
        assert(p + q =~= p);
    } else {
        lemma_scan_append(p, q.drop_last());
        assert((p + q).drop_last() =~= p + q.drop_last());
        assert((p + q).last() == q.last());
    }
}

proof fn lemma_scan_digits(st: ScanState, ds: Seq<char>)
    requires
        st.0 is None,
        all_digits(ds),
    ensures
        scan_from(st, ds) == (None::<DurationError>, st.1, st.2 + ds),
    decreases ds.len(),
{
    if ds.len() == 0 {
        assert(st.2 + ds =~= st.2);
    } else {
        let init = ds.drop_last();
        assert(all_digits(init)) by {
            assert forall|i: int| 0 <= i < init.len() implies is_digit(#[trigger] init[i]) by {
                assert(init[i] == ds[i]);
            }
        }
        lemma_scan_digits(st, init);
        assert(is_digit(ds[ds.len() - 1]));
        assert((st.2 + init).push(ds.last()) =~= st.2 + ds);
    }
}

proof fn lemma_scan_part(t: int, k: u64, unit: char, m: nat)
    requires
        unit_seconds(unit) == Some(m),
    ensures
        scan_from((None, t, Seq::empty()), format_part(k as nat, unit)) == (
            None::<DurationError>,
            t + (k as int) * (m as int),
            Seq::<char>::empty(),
        ),
{
    let st: ScanState = (None, t, Seq::empty());
    if k > 0 {
        let ds = decimal(k as nat);
        lemma_decimal(k as nat);
        let q = ds.push(unit);
        assert(q.drop_last() =~= ds);
        lemma_scan_digits(st, ds);
        assert(Seq::<char>::empty() + ds =~= ds);
        assert(!is_digit(unit));
    } else {
        assert(format_part(k as nat, unit) =~= Seq::<char>::empty());
    }
}

proof fn lemma_scan_total_grows(s: Seq<char>)
    requires
        s.len() > 0,
    ensures
        scan(s.drop_last()).1 <= scan(s).1,
{
    let st = scan(s.drop_last());
    if st.0 is None && !is_digit(s.last()) && st.2.len() > 0 && digits_value(st.2) <= u64::MAX {
        if let Some(u) = unit_seconds(s.last()) {
            assert(digits_value(st.2) * u >= 0) by (nonlinear_arith);
        }
    }
}

proof fn lemma_scan_prefix_totals(s: Seq<char>, i: int)
    requires
        0 <= i <= s.len(),
    ensures
        scan(s.take(i)).1 <= scan(s).1,
    decreases s.len() - i,
{
    if i == s.len() {
        assert(s.take(i) =~= s);
    } else {
        lemma_scan_prefix_totals(s, i + 1);
        assert(s.take(i + 1).drop_last() =~= s.take(i));
        lemma_scan_total_grows(s.take(i + 1));
    }
}

/// The scanner started with `t` seconds already counted reads `q` as it
/// reads it from the start, with `t` more seconds.
proof fn lemma_scan_shift(t: int, q: Seq<char>)
    ensures
        ({
            let r = scan(q);
            scan_from((None, t, Seq::empty()), q) == (r.0, r.1 + t, r.2)
        }),
    decreases q.len(),
{
    if q.len() > 0 {
        lemma_scan_shift(t, q.drop_last());
    }
}

/// Durations written one after the other add up: if `a` and `b` are
/// durations of `n` and `m` seconds, `a` followed by `b` is one of `n + m`
/// seconds (as in `1h30m`, which is `1h` and `30m`).
pub proof fn law_parts_add_up(a: Seq<char>, b: Seq<char>)
    requires
        spec_parse_duration(a) is Ok,
        spec_parse_duration(b) is Ok,
    ensures
        spec_parse_duration(a + b) == Ok::<nat, DurationError>(
            (spec_parse_duration(a)->Ok_0 + spec_parse_duration(b)->Ok_0) as nat,
        ),
{
    lemma_scan_append(a, b);
    let sa = scan(a);
    assert(sa.2 =~= Seq::<char>::empty());
    lemma_scan_shift(sa.1, b);
}

/// Writing a positive number of seconds and reading it back gives the same
/// number of seconds.
pub proof fn law_format_then_parse(n: u64)
    requires
        n > 0,
    ensures
        duration_fits(spec_format_duration(n as nat)),
        spec_parse_duration(spec_format_duration(n as nat)) == Ok::<nat, DurationError>(n as nat),
{
    let d = (n / 86400) as u64;
    let h = ((n % 86400) / 3600) as u64;
    let mi = ((n % 3600) / 60) as u64;
    let se = (n % 60) as u64;
    let pd = format_part(d as nat, 'd');
    let ph = format_part(h as nat, 'h');
    let pm = format_part(mi as nat, 'm');
    let ps = format_part(se as nat, 's');
    let f = spec_format_duration(n as nat);
    assert(f == pd + ph + pm + ps);
    let e = Seq::<char>::empty();
    assert(scan(e) == scan_start());
    lemma_scan_append(e, pd);
    assert(e + pd =~= pd);
    lemma_scan_part(0, d, 'd', 86400);
    lemma_scan_append(pd, ph);
    lemma_scan_part(d * 86400, h, 'h', 3600);
    lemma_scan_append(pd + ph, pm);
    lemma_scan_part(d * 86400 + h * 3600, mi, 'm', 60);
    lemma_scan_append(pd + ph + pm, ps);
    lemma_scan_part(d * 86400 + h * 3600 + mi * 60, se, 's', 1);
    assert(d * 86400 + h * 3600 + mi * 60 + se == n) by (nonlinear_arith)
        requires
            d == n / 86400,
            h == (n % 86400) / 3600,
            mi == (n % 3600) / 60,
            se == n % 60,
    ;
    assert(scan(f) == (None::<DurationError>, n as int, Seq::<char>::empty()));
    assert forall|i: int| 0 <= i <= f.len() implies #[trigger] scan(f.take(i)).1 <= u64::MAX by {
        lemma_scan_prefix_totals(f, i);
    }
}

} // verus!
