//! Derivation of star time series from sparse daily counts: cumulative
//! position, gap-filled daily speed, and acceleration (the day-to-day
//! change of the daily count), with an optional relative time axis shared
//! across repositories.

use vstd::prelude::*;
use vstd::string::StringExecFns;
use crate::dates::valid_day;
use crate::text::{dec_str_signed, i64_to_string, lower_of, lowercase};

verus! {

/// A metric that can be derived from daily star counts.
#[derive(Debug, Clone, Copy, PartialEq, Eq, Structural)]
pub enum MetricType {
    /// Cumulative star count.
    Position,
    /// Daily star count (first derivative).
    Speed,
    /// Change in daily star count (second derivative).
    Acceleration,
}

/// A single data point with date (as a day number) and value.
#[derive(Debug, Clone, Copy, PartialEq)]
pub struct DataPoint {
    pub date: i64,
    pub value: i64,
    /// Days since the shared start date, on relative charts.
    pub relative_days: Option<i64>,
}

/// One repository's derived series.
#[derive(Debug, Clone)]
pub struct RepositoryData {
    pub owner: String,
    pub name: String,
    pub data_points: Vec<DataPoint>,
}

/// Time axis configuration of a derived chart.
#[derive(Debug, Clone, Copy, PartialEq)]
pub enum TimeAxis {
    Absolute { min_date: i64, max_date: i64 },
    Relative { max_days: i64, start_date: i64 },
}

/// Derived series for several repositories under one metric, with a
/// normalized time axis.
#[derive(Debug, Clone)]
pub struct ProcessedMultiRepoData {
    pub repositories: Vec<RepositoryData>,
    pub time_axis: TimeAxis,
    pub metric_type: MetricType,
    /// Shared start date of a relative chart.
    pub start_date: Option<i64>,
}

/// Daily counts are given in strictly increasing date order.
pub open spec fn sorted_by_day(s: Seq<(i64, i64)>) -> bool {
    forall|i: int, j: int| 0 <= i < j < s.len() ==> (#[trigger] s[i]).0 < (#[trigger] s[j]).0
}

/// Every count of the sparse input is nonnegative.
pub open spec fn counts_nonneg(s: Seq<(i64, i64)>) -> bool {
    forall|i: int| 0 <= i < s.len() ==> (#[trigger] s[i]).1 >= 0
}

/// Every date of the sparse input is a representable day number.
pub open spec fn days_valid(s: Seq<(i64, i64)>) -> bool {
    forall|i: int| 0 <= i < s.len() ==> valid_day((#[trigger] s[i]).0 as int)
}

/// Sum of all counts of the sequence.
pub open spec fn sum_counts(s: Seq<(i64, i64)>) -> int
    decreases s.len(),
{
    if s.len() == 0 {
        0
    } else {
        sum_counts(s.drop_last()) + s.last().1
    }
}

/// Some entry of the sparse input falls on day `d`.
pub open spec fn has_day(s: Seq<(i64, i64)>, d: int) -> bool {
    exists|i: int| 0 <= i < s.len() && (#[trigger] s[i]).0 == d
}

/// The count recorded for day `d`, or 0 when the day is absent.
pub open spec fn lookup_count(s: Seq<(i64, i64)>, d: int) -> int
    decreases s.len(),
{
    if s.len() == 0 {
        0
    } else if s[0].0 == d {
        s[0].1 as int
    } else {
        lookup_count(s.drop_first(), d)
    }
}

/// The `relative_days` field a point on day `date` carries: the offset
/// from the shared start date in relative mode, nothing otherwise.
pub open spec fn rel_days_of(date: int, rel_start: Option<int>) -> Option<i64> {
    match rel_start {
        None => None,
        Some(start) => Some((date - start) as i64),
    }
}

/// `out` is the cumulative (position) series of `input`: one point per
/// input date, valued at the running sum of the counts so far.
pub open spec fn is_position_series(
    input: Seq<(i64, i64)>,
    rel_start: Option<int>,
    out: Seq<DataPoint>,
) -> bool {
    &&& out.len() == input.len()
    &&& forall|i: int|
        0 <= i < out.len() ==> {
            &&& (#[trigger] out[i]).date == input[i].0
            &&& out[i].value as int == sum_counts(input.take(i + 1))
            &&& out[i].relative_days == rel_days_of(input[i].0 as int, rel_start)
        }
}

/// `out` covers every calendar day from the first to the last input date,
/// carrying the recorded count on present days and 0 on absent ones.
pub open spec fn is_filled_series(input: Seq<(i64, i64)>, out: Seq<(i64, i64)>) -> bool {
    if input.len() == 0 {
        out.len() == 0
    } else {
        &&& out.len() as int == input.last().0 as int - input[0].0 as int + 1
        &&& forall|k: int|
            0 <= k < out.len() ==> {
                &&& (#[trigger] out[k]).0 as int == input[0].0 as int + k
                &&& out[k].1 as int == lookup_count(input, input[0].0 as int + k)
            }
    }
}

/// `out` is the gap-filled daily (speed) series of `input`.
pub open spec fn is_speed_series(
    input: Seq<(i64, i64)>,
    rel_start: Option<int>,
    out: Seq<DataPoint>,
) -> bool {
    if input.len() == 0 {
        out.len() == 0
    } else {
        &&& out.len() as int == input.last().0 as int - input[0].0 as int + 1
        &&& forall|k: int|
            0 <= k < out.len() ==> {
                &&& (#[trigger] out[k]).date as int == input[0].0 as int + k
                &&& out[k].value as int == lookup_count(input, input[0].0 as int + k)
                &&& out[k].relative_days == rel_days_of(input[0].0 as int + k, rel_start)
            }
    }
}

/// `out` is the acceleration series of `input`: over the gap-filled days,
/// each point carries the change of the daily count from the previous
/// day, and the very first point carries 0.
pub open spec fn is_acceleration_series(
    input: Seq<(i64, i64)>,
    rel_start: Option<int>,
    out: Seq<DataPoint>,
) -> bool {
    if input.len() == 0 {
        out.len() == 0
    } else {
        &&& out.len() as int == input.last().0 as int - input[0].0 as int + 1
        &&& forall|k: int|
            0 <= k < out.len() ==> {
                &&& (#[trigger] out[k]).date as int == input[0].0 as int + k
                &&& out[k].relative_days == rel_days_of(input[0].0 as int + k, rel_start)
            }
        &&& out[0].value == 0
        &&& forall|k: int|
            1 <= k < out.len() ==> (#[trigger] out[k]).value as int == lookup_count(
                input,
                input[0].0 as int + k,
            ) - lookup_count(input, input[0].0 as int + k - 1)
    }
}

/// `out` is the series of `input` under the requested metric.
pub open spec fn is_metric_series(
    input: Seq<(i64, i64)>,
    metric: MetricType,
    rel_start: Option<int>,
    out: Seq<DataPoint>,
) -> bool {
    match metric {
        MetricType::Position => is_position_series(input, rel_start, out),
        MetricType::Speed => is_speed_series(input, rel_start, out),
        MetricType::Acceleration => is_acceleration_series(input, rel_start, out),
    }
}

proof fn lemma_lookup_at(s: Seq<(i64, i64)>, j: int)
    requires
        0 <= j < s.len(),
        forall|k: int| 0 <= k < s.len() && k != j ==> (#[trigger] s[k]).0 != s[j].0,
    ensures
        lookup_count(s, s[j].0 as int) == s[j].1,
    decreases s.len(),
{
    if j > 0 {
        lemma_lookup_at(s.drop_first(), j - 1);
    }
}

proof fn lemma_lookup_absent(s: Seq<(i64, i64)>, d: int)
    requires
        forall|k: int| 0 <= k < s.len() ==> (#[trigger] s[k]).0 != d,
    ensures
        lookup_count(s, d) == 0,
    decreases s.len(),
{
    if s.len() > 0 {
        lemma_lookup_absent(s.drop_first(), d);
    }
}

proof fn lemma_lookup_bounds(s: Seq<(i64, i64)>, d: int)
    requires
        counts_nonneg(s),
    ensures
        0 <= lookup_count(s, d) <= i64::MAX,
    decreases s.len(),
{
    if s.len() > 0 && s[0].0 != d {
        assert(counts_nonneg(s.drop_first()));
        lemma_lookup_bounds(s.drop_first(), d);
    }
}

proof fn lemma_sum_prefix_bounds(s: Seq<(i64, i64)>, j: int)
    requires
        counts_nonneg(s),
        0 <= j <= s.len(),
    ensures
        0 <= sum_counts(s.take(j)) <= sum_counts(s),
    decreases s.len() - j,
{
    assert(counts_nonneg(s.take(j)));
    lemma_sum_nonneg(s.take(j));
    if j == s.len() {
        assert(s.take(j) =~= s);
    } else {
        lemma_sum_prefix_bounds(s, j + 1);
        assert(s.take(j + 1).drop_last() =~= s.take(j));
        assert(s.take(j + 1).last().1 >= 0);
    }
}

proof fn lemma_sum_nonneg(s: Seq<(i64, i64)>)
    requires
        counts_nonneg(s),
    ensures
        sum_counts(s) >= 0,
    decreases s.len(),
{
    if s.len() > 0 {
        assert(counts_nonneg(s.drop_last()));
        lemma_sum_nonneg(s.drop_last());
    }
}

pub(crate) proof fn lemma_sum_pointwise_diff(
    s1: Seq<(i64, i64)>,
    s2: Seq<(i64, i64)>,
    p: int,
    delta: int,
)
    requires
        s1.len() == s2.len(),
        0 <= p < s1.len(),
        forall|k: int| 0 <= k < s1.len() && k != p ==> s2[k] == s1[k],
        s2[p].1 as int == s1[p].1 as int + delta,
    ensures
        sum_counts(s2) == sum_counts(s1) + delta,
    decreases s1.len(),
{
    if p == s1.len() - 1 {
        assert(s1.drop_last() =~= s2.drop_last());
    } else {
        lemma_sum_pointwise_diff(s1.drop_last(), s2.drop_last(), p, delta);
    }
}

pub(crate) proof fn lemma_sum_insert_shift(s1: Seq<(i64, i64)>, s2: Seq<(i64, i64)>, p: int)
    requires
        s2.len() == s1.len() + 1,
        0 <= p < s2.len(),
        forall|k: int| 0 <= k < p ==> s2[k] == s1[k],
        forall|k: int| p < k < s2.len() ==> s2[k] == s1[k - 1],
    ensures
        sum_counts(s2) == sum_counts(s1) + s2[p].1,
    decreases s2.len(),
{
    if p == s2.len() - 1 {
        assert(s2.drop_last() =~= s1);
    } else {
        lemma_sum_insert_shift(s1.drop_last(), s2.drop_last(), p);
        assert(s2.last() == s1.last());
    }
}

/// Fills in missing days with 0 star counts. The store only reports days
/// with at least one star, but speed and acceleration treat an absent day
/// as a day with zero new stars.
pub fn fill_missing_days(daily_counts: &Vec<(i64, i64)>) -> (r: Vec<(i64, i64)>)
    requires
        sorted_by_day(daily_counts@),
    ensures
        is_filled_series(daily_counts@, r@),
        sorted_by_day(r@),
        counts_nonneg(daily_counts@) ==> counts_nonneg(r@),
{
    let mut result: Vec<(i64, i64)> = Vec::new();
    if daily_counts.len() == 0 {
        return result;
    }
    let first: i64 = daily_counts[0].0;
    let last: i64 = daily_counts[daily_counts.len() - 1].0;
    let mut current: i64 = first;
    let mut j: usize = 0;
    proof {
        assert(daily_counts@.last() == daily_counts@[daily_counts@.len() - 1]);
    }
    loop
        invariant_except_break
            forall|k: int| 0 <= k < j ==> (#[trigger] daily_counts@[k]).0 < current,
            forall|k: int|
                j <= k < daily_counts@.len() ==> (#[trigger] daily_counts@[k]).0 >= current,
            result@.len() as int == current as int - first as int,
        invariant
            sorted_by_day(daily_counts@),
            daily_counts@.len() > 0,
            first == daily_counts@[0].0,
            last == daily_counts@.last().0,
            first <= current <= last,
            j <= daily_counts@.len(),
            forall|k: int|
                0 <= k < result@.len() ==> {
                    &&& (#[trigger] result@[k]).0 as int == first as int + k
                    &&& result@[k].1 as int == lookup_count(daily_counts@, first as int + k)
                },
        ensures
            result@.len() as int == last as int - first as int + 1,
        decreases last as int - current as int,
    {
        let count: i64 = if j < daily_counts.len() && daily_counts[j].0 == current {
            let c = daily_counts[j].1;
            proof {
                assert forall|k: int| 0 <= k < daily_counts@.len() && k != j implies (
                #[trigger] daily_counts@[k]).0 != daily_counts@[j as int].0 by {
                    if k < j {
                        assert(daily_counts@[k].0 < current);
                    } else {
                        assert(daily_counts@[j as int].0 < daily_counts@[k].0);
                    }
                }
                lemma_lookup_at(daily_counts@, j as int);
            }
            j += 1;
            c
        } else {
            proof {
                assert forall|k: int| 0 <= k < daily_counts@.len() implies (
                #[trigger] daily_counts@[k]).0 != current by {
                    if k < j {
                    } else if k == j {
                    } else {
                        assert(daily_counts@[j as int].0 < daily_counts@[k].0);
                    }
                }
                lemma_lookup_absent(daily_counts@, current as int);
            }
            0
        };
        result.push((current, count));
        if current == last {
            break;
        }
        proof {
            assert(daily_counts@.last().0 >= current);
        }
        current = current + 1;
    }
    proof {
        assert forall|i: int, jj: int| 0 <= i < jj < result@.len() implies (#[trigger] result@[i]).0
            < (#[trigger] result@[jj]).0 by {}
        if counts_nonneg(daily_counts@) {
            assert forall|k: int| 0 <= k < result@.len() implies (#[trigger] result@[k]).1 >= 0 by {
                lemma_lookup_bounds(daily_counts@, first as int + k);
            }
        }
    }
    result
}

/// Calculates cumulative star counts (position): one point per input
/// date, valued at the running sum of all counts so far.
pub fn calculate_position_data(daily_counts: &Vec<(i64, i64)>) -> (r: Vec<DataPoint>)
    requires
        counts_nonneg(daily_counts@),
        sum_counts(daily_counts@) <= i64::MAX,
    ensures
        is_position_series(daily_counts@, None, r@),
{
    let mut result: Vec<DataPoint> = Vec::new();
    let mut cumulative: i64 = 0;
    let mut i: usize = 0;
    while i < daily_counts.len()
        invariant
            counts_nonneg(daily_counts@),
            sum_counts(daily_counts@) <= i64::MAX,
            i <= daily_counts@.len(),
            cumulative as int == sum_counts(daily_counts@.take(i as int)),
            result@.len() == i,
            forall|k: int|
                0 <= k < i ==> {
                    &&& (#[trigger] result@[k]).date == daily_counts@[k].0
                    &&& result@[k].value as int == sum_counts(daily_counts@.take(k + 1))
                    &&& result@[k].relative_days is None
                },
        decreases daily_counts@.len() - i,
    {
        proof {
            assert(daily_counts@.take(i + 1).drop_last() =~= daily_counts@.take(i as int));
            assert(daily_counts@.take(i + 1).last() == daily_counts@[i as int]);
            lemma_sum_prefix_bounds(daily_counts@, i as int);
            lemma_sum_prefix_bounds(daily_counts@, i + 1);
        }
        cumulative = cumulative + daily_counts[i].1;
        result.push(DataPoint { date: daily_counts[i].0, value: cumulative, relative_days: None });
        i += 1;
    }
    result
}

/// Calculates daily star counts (speed): the gap-filled count of each
/// calendar day between the first and last input date.
pub fn calculate_speed_data(daily_counts: &Vec<(i64, i64)>) -> (r: Vec<DataPoint>)
    requires
        sorted_by_day(daily_counts@),
    ensures
        is_speed_series(daily_counts@, None, r@),
{
    let filled = fill_missing_days(daily_counts);
    let mut result: Vec<DataPoint> = Vec::new();
    let mut i: usize = 0;
    while i < filled.len()
        invariant
            is_filled_series(daily_counts@, filled@),
            i <= filled@.len(),
            result@.len() == i,
            forall|k: int|
                0 <= k < i ==> {
                    &&& (#[trigger] result@[k]).date == filled@[k].0
                    &&& result@[k].value == filled@[k].1
                    &&& result@[k].relative_days is None
                },
        decreases filled@.len() - i,
    {
        result.push(DataPoint { date: filled[i].0, value: filled[i].1, relative_days: None });
        i += 1;
    }
    result
}

/// Calculates acceleration (second derivative): over the gap-filled days,
/// the change of the daily count from the previous day; the first point
/// carries 0.
pub fn calculate_acceleration_data(daily_counts: &Vec<(i64, i64)>) -> (r: Vec<DataPoint>)
    requires
        sorted_by_day(daily_counts@),
        counts_nonneg(daily_counts@),
    ensures
        is_acceleration_series(daily_counts@, None, r@),
{
    let filled = fill_missing_days(daily_counts);
    let mut result: Vec<DataPoint> = Vec::new();
    if filled.len() == 0 {
        return result;
    }
    result.push(DataPoint { date: filled[0].0, value: 0, relative_days: None });
    let mut i: usize = 1;
    while i < filled.len()
        invariant
            sorted_by_day(daily_counts@),
            counts_nonneg(daily_counts@),
            is_filled_series(daily_counts@, filled@),
            counts_nonneg(filled@),
            1 <= i <= filled@.len(),
            filled@.len() > 0,
            result@.len() == i,
            result@[0].date == filled@[0].0,
            result@[0].value == 0,
            result@[0].relative_days is None,
            forall|k: int|
                1 <= k < i ==> {
                    &&& (#[trigger] result@[k]).date == filled@[k].0
                    &&& result@[k].value as int == filled@[k].1 as int - filled@[k - 1].1 as int
                    &&& result@[k].relative_days is None
                },
        decreases filled@.len() - i,
    {
        proof {
            lemma_lookup_bounds(daily_counts@, daily_counts@[0].0 as int + i);
            lemma_lookup_bounds(daily_counts@, daily_counts@[0].0 as int + i - 1);
        }
        let acceleration = filled[i].1 - filled[i - 1].1;
        result.push(DataPoint { date: filled[i].0, value: acceleration, relative_days: None });
        i += 1;
    }
    result
}

/// Rewrites each point to carry its offset in days from `start_date`;
/// dates and values are unchanged.
pub fn apply_relative_time_transformation(data_points: Vec<DataPoint>, start_date: i64) -> (r:
    Vec<DataPoint>)
    requires
        valid_day(start_date as int),
        forall|i: int|
            0 <= i < data_points@.len() ==> valid_day((#[trigger] data_points@[i]).date as int),
    ensures
        r@.len() == data_points@.len(),
        forall|i: int|
            0 <= i < r@.len() ==> {
                &&& (#[trigger] r@[i]).date == data_points@[i].date
                &&& r@[i].value == data_points@[i].value
                &&& r@[i].relative_days == rel_days_of(
                    data_points@[i].date as int,
                    Some(start_date as int),
                )
            },
{
    let mut result: Vec<DataPoint> = Vec::new();
    let mut i: usize = 0;
    while i < data_points.len()
        invariant
            valid_day(start_date as int),
            forall|k: int|
                0 <= k < data_points@.len() ==> valid_day((#[trigger] data_points@[k]).date as int),
            i <= data_points@.len(),
            result@.len() == i,
            forall|k: int|
                0 <= k < i ==> {
                    &&& (#[trigger] result@[k]).date == data_points@[k].date
                    &&& result@[k].value == data_points@[k].value
                    &&& result@[k].relative_days == rel_days_of(
                        data_points@[k].date as int,
                        Some(start_date as int),
                    )
                },
        decreases data_points@.len() - i,
    {
        let point = data_points[i];
        let days_from_start = point.date - start_date;
        result.push(
            DataPoint {
                date: point.date,
                value: point.value,
                relative_days: Some(days_from_start),
            },
        );
        i += 1;
    }
    result
}

/// An optional relative start date, as a mathematical day number.
pub open spec fn rel_start_int(rel: Option<i64>) -> Option<int> {
    match rel {
        None => None,
        Some(s) => Some(s as int),
    }
}

proof fn lemma_metric_series_days_valid(
    input: Seq<(i64, i64)>,
    metric: MetricType,
    rel_start: Option<int>,
    out: Seq<DataPoint>,
)
    requires
        days_valid(input),
        is_metric_series(input, metric, rel_start, out),
    ensures
        forall|i: int| 0 <= i < out.len() ==> valid_day((#[trigger] out[i]).date as int),
{
    if input.len() > 0 {
        assert(valid_day(input[0].0 as int));
        assert(valid_day(input.last().0 as int));
        assert(input.last() == input[input.len() - 1]);
        match metric {
            MetricType::Position => {
                assert forall|i: int| 0 <= i < out.len() implies valid_day(
                    (#[trigger] out[i]).date as int,
                ) by {
                    assert(valid_day(input[i].0 as int));
                }
            },
            MetricType::Speed => {},
            MetricType::Acceleration => {},
        }
    }
}

proof fn lemma_relative_metric_series(
    input: Seq<(i64, i64)>,
    metric: MetricType,
    start: int,
    mid: Seq<DataPoint>,
    out: Seq<DataPoint>,
)
    requires
        sorted_by_day(input),
        is_metric_series(input, metric, None, mid),
        out.len() == mid.len(),
        forall|i: int|
            0 <= i < out.len() ==> {
                &&& (#[trigger] out[i]).date == mid[i].date
                &&& out[i].value == mid[i].value
                &&& out[i].relative_days == rel_days_of(mid[i].date as int, Some(start))
            },
    ensures
        is_metric_series(input, metric, Some(start), out),
{
    match metric {
        MetricType::Position => {
            assert(is_position_series(input, Some(start), out));
        },
        MetricType::Speed => {
            assert(is_speed_series(input, Some(start), out));
        },
        MetricType::Acceleration => {
            if input.len() > 0 {
                assert(input.last() == input[input.len() - 1]);
                if input.len() > 1 {
                    assert(input[0].0 < input[input.len() - 1].0);
                }
                assert(out.len() > 0);
                assert(out[0].value == mid[0].value);
                assert forall|k: int| 0 <= k < out.len() implies {
                    &&& (#[trigger] out[k]).date as int == input[0].0 as int + k
                    &&& out[k].relative_days == rel_days_of(input[0].0 as int + k, Some(start))
                } by {
                    assert(mid[k].date as int == input[0].0 as int + k);
                }
                assert forall|k: int| 1 <= k < out.len() implies (#[trigger] out[k]).value as int
                    == lookup_count(input, input[0].0 as int + k) - lookup_count(
                    input,
                    input[0].0 as int + k - 1,
                ) by {
                    assert(out[k].value == mid[k].value);
                }
            }
            assert(is_acceleration_series(input, Some(start), out));
        },
    }
}

/// Derives one repository's series under the requested metric, rebasing
/// the points onto a shared relative start date when one is given. An
/// empty input yields an empty series, never an error.
pub fn process_single_repo_data(
    daily_counts: &Vec<(i64, i64)>,
    metric_type: &MetricType,
    relative_start_date: Option<i64>,
) -> (r: Result<Vec<DataPoint>, String>)
    requires
        sorted_by_day(daily_counts@),
        counts_nonneg(daily_counts@),
        sum_counts(daily_counts@) <= i64::MAX,
        days_valid(daily_counts@),
        relative_start_date matches Some(s) ==> valid_day(s as int),
    ensures
        r matches Ok(v) && is_metric_series(
            daily_counts@,
            *metric_type,
            rel_start_int(relative_start_date),
            v@,
        ),
{
    let data_points = match metric_type {
        MetricType::Position => calculate_position_data(daily_counts),
        MetricType::Speed => calculate_speed_data(daily_counts),
        MetricType::Acceleration => calculate_acceleration_data(daily_counts),
    };
    match relative_start_date {
        Some(start_date) => {
            proof {
                lemma_metric_series_days_valid(daily_counts@, *metric_type, None, data_points@);
            }
            let ghost mid = data_points@;
            let transformed = apply_relative_time_transformation(data_points, start_date);
            proof {
                lemma_relative_metric_series(
                    daily_counts@,
                    *metric_type,
                    start_date as int,
                    mid,
                    transformed@,
                );
            }
            Ok(transformed)
        },
        None => Ok(data_points),
    }
}

/// Some repository of the batch has at least one data point.
pub open spec fn repos_have_points(repos: Seq<RepositoryData>) -> bool {
    exists|k: int| 0 <= k < repos.len() && (#[trigger] repos[k]).data_points@.len() > 0
}

/// Some data point of the batch falls on date `d`.
pub open spec fn point_with_date(repos: Seq<RepositoryData>, d: int) -> bool {
    exists|k: int, i: int|
        0 <= k < repos.len() && 0 <= i < repos[k].data_points@.len() && (
        #[trigger] repos[k].data_points@[i]).date == d
}

/// `d` is the earliest date among all data points of the batch.
pub open spec fn is_min_point_date(repos: Seq<RepositoryData>, d: int) -> bool {
    &&& point_with_date(repos, d)
    &&& forall|k: int, i: int|
        0 <= k < repos.len() && 0 <= i < repos[k].data_points@.len() ==> (
        #[trigger] repos[k].data_points@[i]).date >= d
}

/// `d` is the latest date among all data points of the batch.
pub open spec fn is_max_point_date(repos: Seq<RepositoryData>, d: int) -> bool {
    &&& point_with_date(repos, d)
    &&& forall|k: int, i: int|
        0 <= k < repos.len() && 0 <= i < repos[k].data_points@.len() ==> (
        #[trigger] repos[k].data_points@[i]).date <= d
}

/// Every data point of the batch falls on a representable day number.
pub open spec fn repos_days_valid(repos: Seq<RepositoryData>) -> bool {
    forall|k: int, i: int|
        0 <= k < repos.len() && 0 <= i < repos[k].data_points@.len() ==> valid_day(
            (#[trigger] repos[k].data_points@[i]).date as int,
        )
}

/// Smallest and largest point date of one series, or nothing when the
/// series is empty.
fn point_date_bounds(points: &Vec<DataPoint>) -> (r: Option<(i64, i64)>)
    ensures
        match r {
            None => points@.len() == 0,
            Some(b) => {
                &&& points@.len() > 0
                &&& exists|i: int|
                    0 <= i < points@.len() && (#[trigger] points@[i]).date == b.0
                &&& exists|i: int|
                    0 <= i < points@.len() && (#[trigger] points@[i]).date == b.1
                &&& forall|i: int|
                    0 <= i < points@.len() ==> b.0 <= (#[trigger] points@[i]).date <= b.1
            },
        },
{
    if points.len() == 0 {
        return None;
    }
    let mut mn: i64 = points[0].date;
    let mut mx: i64 = points[0].date;
    let mut i: usize = 1;
    while i < points.len()
        invariant
            points@.len() > 0,
            1 <= i <= points@.len(),
            exists|k: int| 0 <= k < i && (#[trigger] points@[k]).date == mn,
            exists|k: int| 0 <= k < i && (#[trigger] points@[k]).date == mx,
            forall|k: int| 0 <= k < i ==> mn <= (#[trigger] points@[k]).date <= mx,
        decreases points@.len() - i,
    {
        let d = points[i].date;
        if d < mn {
            mn = d;
        }
        if d > mx {
            mx = d;
        }
        i += 1;
    }
    Some((mn, mx))
}

/// Calculates the time axis covering every data point of the batch:
/// the full date range, or in relative mode the shared start date and
/// the number of days the batch spans.
pub fn calculate_time_axis(repositories: &Vec<RepositoryData>, relative_x_axis: bool) -> (r: Result<
    TimeAxis,
    String,
>)
    requires
        repos_days_valid(repositories@),
    ensures
        repositories@.len() == 0 ==> (r matches Err(m) && m@ == "No repository data provided"@),
        repositories@.len() > 0 && !repos_have_points(repositories@) ==> (r matches Err(m) && m@
            == "No data points found"@),
        repositories@.len() > 0 && repos_have_points(repositories@) && !relative_x_axis ==> (
        r matches Ok(axis) && axis matches TimeAxis::Absolute { min_date, max_date }
            && is_min_point_date(repositories@, min_date as int) && is_max_point_date(
            repositories@,
            max_date as int,
        )),
        repositories@.len() > 0 && repos_have_points(repositories@) && relative_x_axis ==> (
        r matches Ok(axis) && axis matches TimeAxis::Relative { max_days, start_date }
            && is_min_point_date(repositories@, start_date as int) && is_max_point_date(
            repositories@,
            start_date as int + max_days as int,
        ) && max_days >= 0),
{
    if repositories.len() == 0 {
        return Err(String::from_str("No repository data provided"));
    }
    let mut acc: Option<(i64, i64)> = None;
    let mut k: usize = 0;
    while k < repositories.len()
        invariant
            repos_days_valid(repositories@),
            k <= repositories@.len(),
            match acc {
                None => forall|k2: int|
                    0 <= k2 < k ==> (#[trigger] repositories@[k2]).data_points@.len() == 0,
                Some(b) => {
                    &&& valid_day(b.0 as int)
                    &&& valid_day(b.1 as int)
                    &&& exists|k2: int, i: int|
                        0 <= k2 < k && 0 <= i < repositories@[k2].data_points@.len() && (
                        #[trigger] repositories@[k2].data_points@[i]).date == b.0
                    &&& exists|k2: int, i: int|
                        0 <= k2 < k && 0 <= i < repositories@[k2].data_points@.len() && (
                        #[trigger] repositories@[k2].data_points@[i]).date == b.1
                    &&& forall|k2: int, i: int|
                        0 <= k2 < k && 0 <= i < repositories@[k2].data_points@.len() ==> b.0 <= (
                        #[trigger] repositories@[k2].data_points@[i]).date <= b.1
                },
            },
        decreases repositories@.len() - k,
    {
        let bounds = point_date_bounds(&repositories[k].data_points);
        match bounds {
            None => {},
            Some(b) => {
                acc = match acc {
                    None => Some(b),
                    Some(a) => {
                        let mn = if b.0 < a.0 {
                            b.0
                        } else {
                            a.0
                        };
                        let mx = if b.1 > a.1 {
                            b.1
                        } else {
                            a.1
                        };
                        Some((mn, mx))
                    },
                };
            },
        }
        k += 1;
    }
    match acc {
        None => Err(String::from_str("No data points found")),
        Some((mn, mx)) => {
            if relative_x_axis {
                Ok(TimeAxis::Relative { max_days: mx - mn, start_date: mn })
            } else {
                Ok(TimeAxis::Absolute { min_date: mn, max_date: mx })
            }
        },
    }
}

/// One repository's raw input is well formed: counts sorted by day,
/// nonnegative, with a representable total and representable day numbers.
pub open spec fn repo_input_wf(t: (String, String, Vec<(i64, i64)>)) -> bool {
    &&& sorted_by_day(t.2@)
    &&& counts_nonneg(t.2@)
    &&& sum_counts(t.2@) <= i64::MAX
    &&& days_valid(t.2@)
}

/// Some repository of the raw batch has at least one daily count.
pub open spec fn any_repo_has_data(repo_data: Seq<(String, String, Vec<(i64, i64)>)>) -> bool {
    exists|k: int| 0 <= k < repo_data.len() && (#[trigger] repo_data[k]).2@.len() > 0
}

/// `d` is the earliest first date across all repositories of the raw
/// batch that have any data.
pub open spec fn is_overall_earliest(
    repo_data: Seq<(String, String, Vec<(i64, i64)>)>,
    d: int,
) -> bool {
    &&& exists|k: int|
        0 <= k < repo_data.len() && (#[trigger] repo_data[k]).2@.len() > 0 && repo_data[k].2@[0].0
            == d
    &&& forall|k: int|
        0 <= k < repo_data.len() && (#[trigger] repo_data[k]).2@.len() > 0 ==> repo_data[k].2@[0].0
            >= d
}

/// The time axis matches the batch of derived series: in relative mode
/// the shared start date and the span in days, otherwise the full date
/// range.
pub open spec fn axis_ok(repos: Seq<RepositoryData>, relative: bool, axis: TimeAxis) -> bool {
    if relative {
        axis matches TimeAxis::Relative { max_days, start_date } && is_min_point_date(
            repos,
            start_date as int,
        ) && is_max_point_date(repos, start_date as int + max_days as int) && max_days >= 0
    } else {
        axis matches TimeAxis::Absolute { min_date, max_date } && is_min_point_date(
            repos,
            min_date as int,
        ) && is_max_point_date(repos, max_date as int)
    }
}

/// One output block of `process_multi_repo_data` is correct for its
/// metric: every repository carries its derived series, the relative
/// start date is the overall earliest first date when relative mode is
/// requested, and the time axis covers the batch.
pub open spec fn processed_block_ok(
    repo_data: Seq<(String, String, Vec<(i64, i64)>)>,
    metric: MetricType,
    relative_x_axis: bool,
    block: ProcessedMultiRepoData,
) -> bool {
    &&& block.metric_type == metric
    &&& block.repositories@.len() == repo_data.len()
    &&& forall|k: int|
        0 <= k < repo_data.len() ==> {
            &&& (#[trigger] block.repositories@[k]).owner@ == repo_data[k].0@
            &&& block.repositories@[k].name@ == repo_data[k].1@
            &&& is_metric_series(
                repo_data[k].2@,
                metric,
                rel_start_int(block.start_date),
                block.repositories@[k].data_points@,
            )
        }
    &&& !relative_x_axis ==> block.start_date is None
    &&& relative_x_axis ==> (block.start_date matches Some(sd) && is_overall_earliest(
        repo_data,
        sd as int,
    ))
    &&& axis_ok(block.repositories@, relative_x_axis, block.time_axis)
}

/// Processes raw daily counts of several repositories into one block per
/// requested metric. A batch with no repositories yields no blocks; a
/// nonempty batch in which no repository has any data yields an error
/// (when at least one metric is requested); otherwise every block is
/// correct for its metric.
pub fn process_multi_repo_data(
    repo_data: Vec<(String, String, Vec<(i64, i64)>)>,
    metric_types: &Vec<MetricType>,
    relative_x_axis: bool,
) -> (r: Result<Vec<ProcessedMultiRepoData>, String>)
    requires
        forall|k: int| 0 <= k < repo_data@.len() ==> repo_input_wf(#[trigger] repo_data@[k]),
    ensures
        repo_data@.len() == 0 ==> (r matches Ok(v) && v@.len() == 0),
        repo_data@.len() > 0 && !any_repo_has_data(repo_data@) && metric_types@.len() > 0 ==> (
        r matches Err(m) && m@ == "No data points found"@),
        repo_data@.len() > 0 && (any_repo_has_data(repo_data@) || metric_types@.len() == 0) ==> (
        r matches Ok(v) && v@.len() == metric_types@.len() && (forall|m: int|
            0 <= m < v@.len() ==> processed_block_ok(
                repo_data@,
                metric_types@[m],
                relative_x_axis,
                #[trigger] v@[m],
            ))),
{
    let mut results: Vec<ProcessedMultiRepoData> = Vec::new();
    if repo_data.len() == 0 {
        return Ok(results);
    }
    // The earliest start date across all repositories, for relative mode.
    let mut earliest: Option<i64> = None;
    if relative_x_axis {
        let mut k: usize = 0;
        while k < repo_data.len()
            invariant
                relative_x_axis,
                k <= repo_data@.len(),
                forall|k2: int|
                    0 <= k2 < repo_data@.len() ==> repo_input_wf(#[trigger] repo_data@[k2]),
                match earliest {
                    None => forall|k2: int|
                        0 <= k2 < k ==> (#[trigger] repo_data@[k2]).2@.len() == 0,
                    Some(e) => {
                        &&& valid_day(e as int)
                        &&& exists|k2: int|
                            0 <= k2 < k && (#[trigger] repo_data@[k2]).2@.len() > 0
                                && repo_data@[k2].2@[0].0 == e
                        &&& forall|k2: int|
                            0 <= k2 < k && (#[trigger] repo_data@[k2]).2@.len() > 0
                                ==> repo_data@[k2].2@[0].0 >= e
                    },
                },
            decreases repo_data@.len() - k,
        {
            let counts = &repo_data[k].2;
            if counts.len() > 0 {
                let d = counts[0].0;
                earliest = match earliest {
                    None => Some(d),
                    Some(e) => if d < e {
                        Some(d)
                    } else {
                        Some(e)
                    },
                };
            }
            k += 1;
        }
    }
    let mut m: usize = 0;
    while m < metric_types.len()
        invariant
            m <= metric_types@.len(),
            repo_data@.len() > 0,
            forall|k2: int| 0 <= k2 < repo_data@.len() ==> repo_input_wf(#[trigger] repo_data@[k2]),
            relative_x_axis ==> match earliest {
                None => !any_repo_has_data(repo_data@),
                Some(e) => valid_day(e as int) && is_overall_earliest(repo_data@, e as int),
            },
            !relative_x_axis ==> earliest is None,
            results@.len() == m,
            m > 0 ==> any_repo_has_data(repo_data@),
            forall|m2: int|
                0 <= m2 < m ==> processed_block_ok(
                    repo_data@,
                    metric_types@[m2],
                    relative_x_axis,
                    #[trigger] results@[m2],
                ),
        decreases metric_types@.len() - m,
    {
        let metric = metric_types[m];
        let mut processed_repos: Vec<RepositoryData> = Vec::new();
        let mut k: usize = 0;
        while k < repo_data.len()
            invariant
                k <= repo_data@.len(),
                forall|k2: int|
                    0 <= k2 < repo_data@.len() ==> repo_input_wf(#[trigger] repo_data@[k2]),
                earliest matches Some(e) ==> valid_day(e as int),
                processed_repos@.len() == k,
                forall|k2: int|
                    0 <= k2 < k ==> {
                        &&& (#[trigger] processed_repos@[k2]).owner@ == repo_data@[k2].0@
                        &&& processed_repos@[k2].name@ == repo_data@[k2].1@
                        &&& is_metric_series(
                            repo_data@[k2].2@,
                            metric,
                            rel_start_int(earliest),
                            processed_repos@[k2].data_points@,
                        )
                    },
            decreases repo_data@.len() - k,
        {
            let points = match process_single_repo_data(&repo_data[k].2, &metric, earliest) {
                Ok(points) => points,
                Err(message) => {
                    return Err(message);
                },
            };
            processed_repos.push(
                RepositoryData {
                    owner: repo_data[k].0.clone(),
                    name: repo_data[k].1.clone(),
                    data_points: points,
                },
            );
            k += 1;
        }
        proof {
            assert forall|k2: int, i: int|
                0 <= k2 < processed_repos@.len() && 0 <= i
                    < processed_repos@[k2].data_points@.len() implies valid_day(
                (#[trigger] processed_repos@[k2].data_points@[i]).date as int,
            ) by {
                lemma_metric_series_days_valid(
                    repo_data@[k2].2@,
                    metric,
                    rel_start_int(earliest),
                    processed_repos@[k2].data_points@,
                );
            }
            if any_repo_has_data(repo_data@) {
                let kw = choose|k2: int|
                    0 <= k2 < repo_data@.len() && (#[trigger] repo_data@[k2]).2@.len() > 0;
                assert(repo_data@[kw].2@.last() == repo_data@[kw].2@[repo_data@[kw].2@.len() - 1]);
                if repo_data@[kw].2@.len() > 1 {
                    assert(repo_data@[kw].2@[0].0 < repo_data@[kw].2@[repo_data@[kw].2@.len()
                        - 1].0);
                }
                assert(processed_repos@[kw].data_points@.len() > 0);
                assert(repos_have_points(processed_repos@));
            }
        }
        let time_axis = match calculate_time_axis(&processed_repos, relative_x_axis) {
            Ok(axis) => {
                proof {
                    if !any_repo_has_data(repo_data@) {
                        assert forall|k2: int| 0 <= k2 < processed_repos@.len() implies (
                        #[trigger] processed_repos@[k2]).data_points@.len() == 0 by {
                            assert(repo_data@[k2].2@.len() == 0);
                        }
                        assert(!repos_have_points(processed_repos@));
                        assert(false);
                    }
                }
                axis
            },
            Err(message) => {
                proof {
                    assert(!repos_have_points(processed_repos@));
                    assert(!any_repo_has_data(repo_data@));
                }
                return Err(message);
            },
        };
        results.push(
            ProcessedMultiRepoData {
                repositories: processed_repos,
                time_axis,
                metric_type: metric,
                start_date: earliest,
            },
        );
        m += 1;
    }
    Ok(results)
}

/// The metric a lowercase name denotes, if any.
pub open spec fn metric_of_lower(l: Seq<char>) -> Option<MetricType> {
    if l == "position"@ {
        Some(MetricType::Position)
    } else if l == "speed"@ {
        Some(MetricType::Speed)
    } else if l == "acceleration"@ {
        Some(MetricType::Acceleration)
    } else {
        None
    }
}

/// The metric a name denotes, compared case-insensitively.
pub open spec fn metric_of(s: Seq<char>) -> Option<MetricType> {
    metric_of_lower(lower_of(s))
}

/// Every name of the list denotes a metric.
pub open spec fn all_metrics_valid(ms: Seq<Seq<char>>) -> bool {
    forall|i: int| 0 <= i < ms.len() ==> (#[trigger] metric_of(ms[i])) is Some
}

/// The metrics the names denote, in first-occurrence order, without
/// repetition; names that denote no metric are passed over.
pub open spec fn dedup_metrics(ms: Seq<Seq<char>>) -> Seq<MetricType>
    decreases ms.len(),
{
    if ms.len() == 0 {
        Seq::empty()
    } else {
        let acc = dedup_metrics(ms.drop_last());
        match metric_of(ms.last()) {
            Some(m) => if acc.contains(m) {
                acc
            } else {
                acc.push(m)
            },
            None => acc,
        }
    }
}

/// The rejection message for a name that denotes no metric.
pub open spec fn invalid_metric_message(s: Seq<char>) -> Seq<char> {
    "Invalid metric type: '"@ + s + "'. Valid types are: position, speed, acceleration"@
}

fn contains_metric(v: &Vec<MetricType>, m: MetricType) -> (b: bool)
    ensures
        b == v@.contains(m),
{
    let mut i: usize = 0;
    while i < v.len()
        invariant
            i <= v@.len(),
            forall|k: int| 0 <= k < i ==> v@[k] != m,
        decreases v@.len() - i,
    {
        if v[i] == m {
            return true;
        }
        i += 1;
    }
    false
}

/// The default list of metric names: position alone.
pub fn default_metric_types() -> (r: Vec<String>)
    ensures
        r@.len() == 1,
        r@[0]@ == "position"@,
{
    let mut v: Vec<String> = Vec::new();
    v.push(String::from_str("position"));
    v
}

/// Parses metric names, case-insensitively, into metrics in
/// first-occurrence order without repetition; an empty list denotes
/// position alone, and the first unrecognized name is rejected.
pub fn parse_metric_types(metric_strings: &Vec<String>) -> (r: Result<Vec<MetricType>, String>)
    ensures
        metric_strings@.len() == 0 ==> (r matches Ok(v) && v@ == seq![MetricType::Position]),
        metric_strings@.len() > 0 ==> {
            &&& (r is Ok <==> all_metrics_valid(metric_strings.deep_view()))
            &&& (r matches Ok(v) ==> v@ == dedup_metrics(metric_strings.deep_view()))
            &&& (r matches Err(e) ==> exists|i: int|
                {
                    &&& 0 <= i < metric_strings@.len()
                    &&& (#[trigger] metric_of(metric_strings@[i]@)) is None
                    &&& forall|j: int| 0 <= j < i ==> metric_of(metric_strings@[j]@) is Some
                    &&& e@ == invalid_metric_message(metric_strings@[i]@)
                })
        },
{
    let mut metric_types: Vec<MetricType> = Vec::new();
    if metric_strings.len() == 0 {
        metric_types.push(MetricType::Position);
        proof {
            assert(metric_types@ =~= seq![MetricType::Position]);
        }
        return Ok(metric_types);
    }
    let position_name = String::from_str("position");
    let speed_name = String::from_str("speed");
    let acceleration_name = String::from_str("acceleration");
    let mut i: usize = 0;
    while i < metric_strings.len()
        invariant
            i <= metric_strings@.len(),
            position_name@ == "position"@,
            speed_name@ == "speed"@,
            acceleration_name@ == "acceleration"@,
            forall|j: int| 0 <= j < i ==> (#[trigger] metric_of(metric_strings@[j]@)) is Some,
            metric_types@ == dedup_metrics(metric_strings.deep_view().take(i as int)),
        decreases metric_strings@.len() - i,
    {
        proof {
            assert(metric_strings.deep_view().take(i + 1).drop_last() =~= metric_strings.deep_view(
            ).take(i as int));
            assert(metric_strings.deep_view().take(i + 1).last() == metric_strings@[i as int]@);
        }
        let lowered = lowercase(metric_strings[i].as_str());
        let metric_type = if lowered == position_name {
            MetricType::Position
        } else if lowered == speed_name {
            MetricType::Speed
        } else if lowered == acceleration_name {
            MetricType::Acceleration
        } else {
            let mut message = String::from_str("Invalid metric type: '");
            message.append(metric_strings[i].as_str());
            message.append("'. Valid types are: position, speed, acceleration");
            proof {
                assert(metric_of(metric_strings@[i as int]@) is None);
                assert(message@ =~= invalid_metric_message(metric_strings@[i as int]@));
            }
            return Err(message);
        };
        if !contains_metric(&metric_types, metric_type) {
            metric_types.push(metric_type);
        }
        i += 1;
    }
    proof {
        assert(metric_strings.deep_view().take(i as int) =~= metric_strings.deep_view());
    }
    Ok(metric_types)
}

/// Formats a day offset as a short label: whole days under a month,
/// months under a year, years beyond.
pub fn format_relative_time_label(days: i64) -> (s: String)
    ensures
        days < 30 ==> s@ == dec_str_signed(days as int) + "d"@,
        30 <= days < 365 ==> s@ == dec_str_signed(days as int / 30) + "m"@,
        days >= 365 ==> s@ == dec_str_signed(days as int / 365) + "y"@,
{
    if days < 30 {
        let mut s = i64_to_string(days);
        s.append("d");
        s
    } else if days < 365 {
        let months = days / 30;
        let mut s = i64_to_string(months);
        s.append("m");
        s
    } else {
        let years = days / 365;
        let mut s = i64_to_string(years);
        s.append("y");
        s
    }
}

} // verus!
