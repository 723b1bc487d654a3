//! Argument checks of the command-line tool, and the bucketing of a daily
//! trend into weeks or months.
use vstd::prelude::*;

use crate::analyzer::{day_total, days_sum, lemma_days_sum_prefix, sessions_sum, DayCounts};
use crate::text::{chars_of, string_from_chars};
use vstd::string::StringExecFns;

verus! {

// ============================================================
// UTF-8 positions
// ============================================================
/// Bytes of `c` in UTF-8.
pub open spec fn utf8_width(c: char) -> nat {
    if (c as u32) < 0x80 {
        1
    } else if (c as u32) < 0x800 {
        2
    } else if (c as u32) < 0x10000 {
        3
    } else {
        4
    }
}

/// Bytes of `s` in UTF-8.
pub open spec fn utf8_len(s: Seq<char>) -> nat
    decreases s.len(),
{
    if s.len() == 0 {
        0
    } else {
        utf8_width(s[0]) + utf8_len(s.drop_first())
    }
}

/// Byte offset `b` of `s` in UTF-8 falls between two characters (or at
/// the end): slicing the string there does not panic.
pub open spec fn is_char_boundary(s: Seq<char>, b: nat) -> bool
    decreases s.len(),
{
    if b == 0 {
        true
    } else if s.len() == 0 {
        false
    } else if utf8_width(s[0]) > b {
        false
    } else {
        is_char_boundary(s.drop_first(), (b - utf8_width(s[0])) as nat)
    }
}

/// What follows the first `b` bytes of `s` (for a boundary `b`).
pub open spec fn skip_bytes(s: Seq<char>, b: nat) -> Seq<char>
    decreases s.len(),
{
    if b == 0 || s.len() == 0 || utf8_width(s[0]) > b {
        s
    } else {
        skip_bytes(s.drop_first(), (b - utf8_width(s[0])) as nat)
    }
}

fn char_utf8_width(c: char) -> (r: usize)
    ensures
        r == utf8_width(c),
{
    let v = c as u32;
    if v < 0x80 {
        1
    } else if v < 0x800 {
        2
    } else if v < 0x10000 {
        3
    } else {
        4
    }
}

/// The characters after the first `b` bytes of `s`.
fn skip_utf8_bytes(s: &Vec<char>, b: usize) -> (r: Vec<char>)
    requires
        is_char_boundary(s@, b as nat),
    ensures
        r@ == skip_bytes(s@, b as nat),
{
    let mut i: usize = 0;
    let mut left: usize = b;
    assert(s@.skip(0) =~= s@);
    while left > 0
        invariant
            i <= s.len(),
            left <= b,
            is_char_boundary(s@.skip(i as int), left as nat),
            skip_bytes(s@, b as nat) == skip_bytes(s@.skip(i as int), left as nat),
        decreases left,
    {
        assert(s@.skip(i as int).len() > 0);
        assert(s@.skip(i as int)[0] == s@[i as int]);
        assert(s@.skip(i as int).drop_first() =~= s@.skip(i + 1));
        let w = char_utf8_width(s[i]);
        left = left - w;
        i = i + 1;
    }
    let mut r: Vec<char> = Vec::new();
    let mut j: usize = i;
    while j < s.len()
        invariant
            i <= j <= s.len(),
            r@ == s@.subrange(i as int, j as int),
        decreases s.len() - j,
    {
        r.push(s[j]);
        j = j + 1;
        assert(r@ =~= s@.subrange(i as int, j as int));
    }
    assert(r@ =~= s@.skip(i as int));
    r
}

// ============================================================
// Month argument
// ============================================================
/// An ASCII digit.
pub open spec fn is_digit(c: char) -> bool {
    '0' <= c && c <= '9'
}

/// The value of an ASCII digit.
pub open spec fn digit_value(c: char) -> nat {
    ((c as u32) - 48) as nat
}

/// `month` has the shape `YYYY-MM`.
pub open spec fn month_shape(month: Seq<char>) -> bool {
    &&& month.len() == 7
    &&& is_digit(month[0]) && is_digit(month[1]) && is_digit(month[2]) && is_digit(month[3])
    &&& month[4] == '-'
    &&& is_digit(month[5]) && is_digit(month[6])
}

/// The month number of a `YYYY-MM` string.
pub open spec fn month_number(month: Seq<char>) -> nat {
    10 * digit_value(month[5]) + digit_value(month[6])
}

/// A month argument was refused.
#[derive(Debug, PartialEq, Eq)]
pub enum MonthError {
    /// Not of the form `YYYY-MM`; holds the argument.
    Format(String),
    /// The month number is not 01 to 12; holds the two month digits.
    Range(String),
}

impl MonthError {
    /// The text that [`MonthError::message`] returns.
    pub open spec fn spec_message(&self) -> Seq<char> {
        match self {
            MonthError::Format(m) => "Invalid month format '"@ + m@
                + "'. Expected YYYY-MM (e.g., 2026-04)."@,
            MonthError::Range(mm) => "Month value out of range: "@ + mm@ + ". Expected 01-12."@,
        }
    }

    /// Human-readable description of the error.
    pub fn message(&self) -> (r: String)
        ensures
            r@ == self.spec_message(),
    {
        match self {
            MonthError::Format(m) => {
                let mut s = String::from_str("Invalid month format '");
                s.append(m.as_str());
                s.append("'. Expected YYYY-MM (e.g., 2026-04).");
                s
            },
            MonthError::Range(mm) => {
                let mut s = String::from_str("Month value out of range: ");
                s.append(mm.as_str());
                s.append(". Expected 01-12.");
                s
            },
        }
    }
}

/// Validate that a month string is in `YYYY-MM` format with a valid month
/// number; every other string is refused with an error.
pub fn validate_month_format(month: &str) -> (r: Result<(), MonthError>)
    ensures
        match r {
            Ok(()) => month_shape(month@) && 1 <= month_number(month@) <= 12,
            Err(MonthError::Format(m)) => !month_shape(month@) && m@ == month@,
            Err(MonthError::Range(mm)) => month_shape(month@) && !(1 <= month_number(month@)
                <= 12) && mm@ == month@.skip(5),
        },
{
    let c = chars_of(month);
    let shape = c.len() == 7 && '0' <= c[0] && c[0] <= '9' && '0' <= c[1] && c[1] <= '9' && '0'
        <= c[2] && c[2] <= '9' && '0' <= c[3] && c[3] <= '9' && c[4] == '-' && '0' <= c[5]
        && c[5] <= '9' && '0' <= c[6] && c[6] <= '9';
    if !shape {
        return Err(MonthError::Format(String::from_str(month)));
    }
    let mm: u32 = 10 * ((c[5] as u32) - 48) + ((c[6] as u32) - 48);
    if mm < 1 || mm > 12 {
        let mut tail: Vec<char> = Vec::new();
        tail.push(c[5]);
        tail.push(c[6]);
        assert(tail@ =~= month@.skip(5));
        return Err(MonthError::Range(string_from_chars(&tail)));
    }
    Ok(())
}

// ============================================================
// Trend granularity
// ============================================================
/// How a trend is grouped.
#[derive(Debug, Clone, Copy, PartialEq, Eq, Structural)]
pub enum Granularity {
    Daily,
    Weekly,
    Monthly,
}

/// The granularity named `name`, if it is one.
pub open spec fn spec_granularity(name: Seq<char>) -> Option<Granularity> {
    if name == "daily"@ {
        Some(Granularity::Daily)
    } else if name == "weekly"@ {
        Some(Granularity::Weekly)
    } else if name == "monthly"@ {
        Some(Granularity::Monthly)
    } else {
        None
    }
}

/// The text of the error for an unknown granularity `name`.
pub open spec fn granularity_error(name: Seq<char>) -> Seq<char> {
    "Unsupported granularity: '"@ + name + "'. Use 'daily', 'weekly', or 'monthly'."@
}

/// Parse a trend granularity: `daily`, `weekly` or `monthly`; anything else
/// is refused with a message naming it.
pub fn validate_granularity(name: &str) -> (r: Result<Granularity, String>)
    ensures
        match spec_granularity(name@) {
            Some(g) => r == Ok::<Granularity, String>(g),
            None => r matches Err(msg) && msg@ == granularity_error(name@),
        },
{
    let s = String::from_str(name);
    if s == String::from_str("daily") {
        Ok(Granularity::Daily)
    } else if s == String::from_str("weekly") {
        Ok(Granularity::Weekly)
    } else if s == String::from_str("monthly") {
        Ok(Granularity::Monthly)
    } else {
        let mut msg = String::from_str("Unsupported granularity: '");
        msg.append(name);
        msg.append("'. Use 'daily', 'weekly', or 'monthly'.");
        Err(msg)
    }
}

impl Granularity {
    /// Days per bucket of the trend report: one, seven or thirty.
    pub fn bucket_days(&self) -> (r: usize)
        ensures
            r == match *self {
                Granularity::Daily => 1usize,
                Granularity::Weekly => 7usize,
                Granularity::Monthly => 30usize,
            },
    {
        match self {
            Granularity::Daily => 1,
            Granularity::Weekly => 7,
            Granularity::Monthly => 30,
        }
    }
}

// ============================================================
// Trend buckets
// ============================================================
/// A run of consecutive days of a trend, reported as one line.
pub struct TrendBucket {
    pub label: String,
    pub total_tokens: u64,
    pub total_sessions: u64,
    /// Index of the bucket's first day.
    pub first_day: usize,
    /// Number of days in the bucket.
    pub day_count: usize,
}

/// The label of a bucket from `first` to `last`: the date itself for a
/// bucket of one date, otherwise both dates without their first five bytes
/// (the year), joined by `~`.
pub open spec fn bucket_label(first: Seq<char>, last: Seq<char>) -> Seq<char> {
    if first == last {
        first
    } else {
        skip_bytes(first, 5) + "~"@ + skip_bytes(last, 5)
    }
}

/// Index of the first day of bucket `k`.
pub open spec fn bucket_start(k: int, size: int) -> int {
    k * size
}

/// Index one past the last day of bucket `k` of `n` days.
pub open spec fn bucket_end(k: int, size: int, n: int) -> int {
    if (k + 1) * size < n {
        (k + 1) * size
    } else {
        n
    }
}

/// The days of bucket `k`.
pub open spec fn bucket_days_of(days: Seq<DayCounts>, k: int, size: int) -> Seq<DayCounts> {
    days.subrange(bucket_start(k, size), bucket_end(k, size, days.len() as int))
}

/// Number of buckets of `size` days over `n` days.
pub open spec fn bucket_count(n: nat, size: nat) -> nat {
    if n == 0 {
        0
    } else {
        (((n - 1) as nat) / size + 1) as nat
    }
}

/// The bucket `b` holds the days of bucket `k`.
pub open spec fn is_bucket(b: TrendBucket, days: Seq<DayCounts>, k: int, size: int) -> bool {
    let ds = bucket_days_of(days, k, size);
    &&& b.first_day == bucket_start(k, size)
    &&& b.day_count == ds.len()
    &&& b.label@ == bucket_label(ds[0].date@, ds.last().date@)
    &&& b.total_tokens == days_sum(ds)
    &&& b.total_sessions == sessions_sum(ds)
}

/// Every bucket's label can be cut out and its counts fit in `u64`.
pub open spec fn buckets_defined(days: Seq<DayCounts>, size: int) -> bool {
    forall|k: int|
        0 <= k && bucket_start(k, size) < days.len() ==> {
            let ds = #[trigger] bucket_days_of(days, k, size);
            &&& days_sum(ds) <= u64::MAX
            &&& sessions_sum(ds) <= u64::MAX
            &&& ds[0].date@ != ds.last().date@ ==> is_char_boundary(ds[0].date@, 5)
                && is_char_boundary(ds.last().date@, 5)
        }
}

/// Sums of the days `from..to`.
fn sum_days(days: &Vec<DayCounts>, from: usize, to: usize) -> (r: (u64, u64))
    requires
        from <= to <= days.len(),
        days_sum(days@.subrange(from as int, to as int)) <= u64::MAX,
        sessions_sum(days@.subrange(from as int, to as int)) <= u64::MAX,
    ensures
        r.0 == days_sum(days@.subrange(from as int, to as int)),
        r.1 == sessions_sum(days@.subrange(from as int, to as int)),
{
    let ghost ds = days@.subrange(from as int, to as int);
    let mut tokens: u64 = 0;
    let mut sessions: u64 = 0;
    let mut i: usize = from;
    while i < to
        invariant
            from <= i <= to <= days.len(),
            ds == days@.subrange(from as int, to as int),
            days_sum(ds) <= u64::MAX,
            sessions_sum(ds) <= u64::MAX,
            tokens == days_sum(ds.take(i - from)),
            sessions == sessions_sum(ds.take(i - from)),
        decreases to - i,
    {
        proof {
            lemma_days_sum_prefix(ds, i - from + 1);
            assert(ds.take(i - from + 1).drop_last() =~= ds.take(i - from));
        }
        let t = crate::analyzer::day_tokens(&days[i]);
        tokens = tokens + t;
        sessions = sessions + days[i].sessions;
        i = i + 1;
    }
    assert(ds.take(to - from) =~= ds);
    (tokens, sessions)
}

/// Group the days of a trend into buckets of `size` consecutive days (the
/// last may be shorter), each with its label and its token and session
/// totals.
pub fn trend_buckets(days: &Vec<DayCounts>, size: usize) -> (r: Vec<TrendBucket>)
    requires
        size > 0,
        buckets_defined(days@, size as int),
    ensures
        r@.len() == bucket_count(days@.len(), size as nat),
        forall|k: int| 0 <= k < r@.len() ==> is_bucket(#[trigger] r@[k], days@, k, size as int),
{
    let mut out: Vec<TrendBucket> = Vec::new();
    let mut start: usize = 0;
    assert(start == out@.len() * size) by (nonlinear_arith)
        requires
            start == 0,
            out@.len() == 0,
    ;
    while start < days.len()
        invariant
            size > 0,
            buckets_defined(days@, size as int),
            start <= days.len(),
            start < days.len() ==> start == out@.len() * size,
            out@.len() <= bucket_count(days@.len(), size as nat),
            start < days.len() ==> out@.len() < bucket_count(days@.len(), size as nat),
            start >= days.len() ==> out@.len() == bucket_count(days@.len(), size as nat),
            forall|k: int|
                0 <= k < out@.len() ==> is_bucket(#[trigger] out@[k], days@, k, size as int),
        decreases days.len() - start,
    {
        let k: Ghost<int> = Ghost(out@.len() as int);
        let end: usize = if days.len() - start > size {
            start + size
        } else {
            days.len()
        };
        assert(bucket_start(k@, size as int) == start);
        assert(bucket_end(k@, size as int, days@.len() as int) == end) by (nonlinear_arith)
            requires
                start == k@ * size,
                end == if days.len() - start > size {
                    start + size
                } else {
                    days.len() as int
                },
        ;
        let ghost ds = bucket_days_of(days@, k@, size as int);
        assert(ds =~= days@.subrange(start as int, end as int));
        assert(days_sum(ds) <= u64::MAX && sessions_sum(ds) <= u64::MAX);
        let (tokens, sessions) = sum_days(days, start, end);
        let first = &days[start].date;
        let last = &days[end - 1].date;
        assert(ds[0] == days@[start as int]);
        assert(ds.last() == days@[end - 1]);
        let label = if *first == *last {
            first.clone()
        } else {
            let f = chars_of(first.as_str());
            let l = chars_of(last.as_str());
            let mut v = skip_utf8_bytes(&f, 5);
            v.push('~');
            let lt = skip_utf8_bytes(&l, 5);
            let mut j: usize = 0;
            let ghost base = v@;
            while j < lt.len()
                invariant
                    j <= lt.len(),
                    v@ == base + lt@.take(j as int),
                decreases lt.len() - j,
            {
                v.push(lt[j]);
                j = j + 1;
                assert(v@ =~= base + lt@.take(j as int));
            }
            assert(lt@.take(lt.len() as int) =~= lt@);
            proof {
                reveal_strlit("~");
                assert(v@ =~= bucket_label(ds[0].date@, ds.last().date@));
            }
            string_from_chars(&v)
        };
        assert(label@ == bucket_label(ds[0].date@, ds.last().date@));
        out.push(
            TrendBucket {
                label,
                total_tokens: tokens,
                total_sessions: sessions,
                first_day: start,
                day_count: end - start,
            },
        );
        assert(is_bucket(out@[k@], days@, k@, size as int));
        proof {
            assert(end == days.len() ==> out@.len() == bucket_count(days@.len(), size as nat))
                by (nonlinear_arith)
                requires
                    out@.len() == k@ + 1,
                    start == k@ * size,
                    start < days.len(),
                    end == days.len() ==> days.len() - start <= size,
                    size > 0,
                    bucket_count(days@.len(), size as nat) == (days.len() - 1) / (size as int) + 1,
            ;
            assert(end < days.len() ==> out@.len() < bucket_count(days@.len(), size as nat))
                by (nonlinear_arith)
                requires
                    out@.len() == k@ + 1,
                    start == k@ * size,
                    end < days.len() ==> end == start + size,
                    size > 0,
                    bucket_count(days@.len(), size as nat) == (days.len() - 1) / (size as int) + 1,
            ;
        }
        start = end;
    }
    out
}

// ============================================================
// Buckets partition the days
// ============================================================
/// Tokens of the buckets `bs`.
pub open spec fn buckets_tokens(bs: Seq<TrendBucket>) -> nat
    decreases bs.len(),
{
    if bs.len() == 0 {
        0
    } else {
        buckets_tokens(bs.drop_last()) + bs.last().total_tokens as nat
    }
}

/// Sessions of the buckets `bs`.
pub open spec fn buckets_sessions(bs: Seq<TrendBucket>) -> nat
    decreases bs.len(),
{
    if bs.len() == 0 {
        0
    } else {
        buckets_sessions(bs.drop_last()) + bs.last().total_sessions as nat
    }
}

proof fn lemma_sums_concat(a: Seq<DayCounts>, b: Seq<DayCounts>)
    ensures
        days_sum(a + b) == days_sum(a) + days_sum(b),
        sessions_sum(a + b) == sessions_sum(a) + sessions_sum(b),
    decreases b.len(),
{
    if b.len() == 0 {
        assert(a + b =~= a);
    } else {
        lemma_sums_concat(a, b.drop_last());
        assert((a + b).drop_last() =~= a + b.drop_last());
        assert((a + b).last() == b.last());
    }
}

/// The first `m` buckets hold exactly the days before the end of bucket
/// `m - 1`.
proof fn lemma_bucket_prefix(days: Seq<DayCounts>, size: int, bs: Seq<TrendBucket>, m: int)
    requires
        size > 0,
        0 <= m <= bs.len(),
        bs.len() == bucket_count(days.len(), size as nat),
        forall|k: int| 0 <= k < bs.len() ==> is_bucket(#[trigger] bs[k], days, k, size),
    ensures
        buckets_tokens(bs.take(m)) == days_sum(days.take(bucket_end(m - 1, size, days.len() as int))),
        buckets_sessions(bs.take(m)) == sessions_sum(
            days.take(bucket_end(m - 1, size, days.len() as int)),
        ),
    decreases m,
{
    let n = days.len() as int;
    assert(bs.len() > 0 ==> bs.len() == (n - 1) / size + 1);
    if m == 0 {
        assert(bucket_end(-1, size, n) == 0) by (nonlinear_arith)
            requires
                size > 0,
                n >= 0,
        ;
        assert(bs.take(0) =~= Seq::<TrendBucket>::empty());
        assert(days.take(0) =~= Seq::<DayCounts>::empty());
    } else {
        lemma_bucket_prefix(days, size, bs, m - 1);
        let k = m - 1;
        assert(k * size < n) by (nonlinear_arith)
            requires
                bs.len() == (n - 1) / size + 1,
                k < bs.len(),
                size > 0,
                0 <= k,
        ;
        assert(bucket_end(k - 1, size, n) == bucket_start(k, size)) by (nonlinear_arith)
            requires
                k * size < n,
                size > 0,
                bucket_end(k - 1, size, n) == if k * size < n {
                    k * size
                } else {
                    n
                },
        ;
        let ds = bucket_days_of(days, k, size);
        let before = days.take(bucket_start(k, size));
        let e = bucket_end(k, size, n);
        assert(bucket_start(k, size) <= e <= n) by (nonlinear_arith)
            requires
                k * size < n,
                size > 0,
                e == if (k + 1) * size < n {
                    (k + 1) * size
                } else {
                    n
                },
        ;
        assert(days.take(e) =~= before + ds);
        lemma_sums_concat(before, ds);
        let b = bs[k];
        assert(is_bucket(b, days, k, size));
        assert(bs.take(m).drop_last() =~= bs.take(k));
        assert(bs.take(m).last() == b);
    }
}

/// Grouping a trend into buckets loses and repeats no day: the token and
/// session totals of the buckets add up to those of all the days.
pub proof fn lemma_buckets_add_up(days: Seq<DayCounts>, size: int, bs: Seq<TrendBucket>)
    requires
        size > 0,
        bs.len() == bucket_count(days.len(), size as nat),
        forall|k: int| 0 <= k < bs.len() ==> is_bucket(#[trigger] bs[k], days, k, size),
    ensures
        buckets_tokens(bs) == days_sum(days),
        buckets_sessions(bs) == sessions_sum(days),
{
    let n = days.len() as int;
    let m = bs.len() as int;
    lemma_bucket_prefix(days, size, bs, m);
    assert(bs.take(m) =~= bs);
    if n == 0 {
        assert(days.take(bucket_end(m - 1, size, n)) =~= days);
    } else {
        assert(bucket_end(m - 1, size, n) == n) by (nonlinear_arith)
            requires
                m == (n - 1) / size + 1,
                size > 0,
                n > 0,
                bucket_end(m - 1, size, n) == if m * size < n {
                    m * size
                } else {
                    n
                },
        ;
        assert(days.take(n) =~= days);
    }
}

} // verus!
