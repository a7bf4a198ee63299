//! Metrics history: which stored samples a query returns (time window and
//! even downsampling), which samples and rotated log files retention drops.

use vstd::prelude::*;
use vstd::arithmetic::div_mod::{lemma_div_is_ordered, lemma_div_plus_one, lemma_div_multiples_vanish};
use crate::text::{chars_of, has_prefix, join_path, path_join};

verus! {

broadcast use vstd::string::group_string_axioms;

/// Seconds between persisted metrics samples by default.
pub const DEFAULT_METRICS_SAMPLE_SECS: u64 = 60;

/// Nanoseconds in one day.
pub const NANOS_PER_DAY: i128 = 86_400_000_000_000;

/// Directory of the history files (`<data_dir>/history`).
pub fn history_dir(data_dir: &str) -> (r: String)
    ensures
        r@ == path_join(data_dir@, "history"@),
{
    join_path(data_dir, "history")
}

/// Path of the metrics history (`<data_dir>/history/metrics.jsonl`).
pub fn metrics_history_path(data_dir: &str) -> (r: String)
    ensures
        r@ == path_join(path_join(data_dir@, "history"@), "metrics.jsonl"@),
{
    let dir = history_dir(data_dir);
    join_path(dir.as_str(), "metrics.jsonl")
}

/// Index of the `i`-th kept sample when `n` samples are thinned to `m`:
/// evenly spaced, first and last included.
pub open spec fn downsample_index(i: int, n: int, m: int) -> int {
    if m == 1 {
        n - 1
    } else {
        i * (n - 1) / (m - 1)
    }
}

/// The positions kept when `n` samples are thinned to at most `m` (all of
/// them when `m` is 0 or there are no more than `m`).
pub open spec fn downsample_plan(n: int, m: int) -> Seq<int> {
    if m == 0 || n <= m {
        Seq::new(n as nat, |i: int| i)
    } else {
        Seq::new(m as nat, |i: int| downsample_index(i, n, m))
    }
}

proof fn lemma_downsample_index_step(i: int, n: int, m: int)
    requires
        0 <= i,
        2 <= m < n,
    ensures
        downsample_index(i, n, m) < downsample_index(i + 1, n, m),
{
    let d = m - 1;
    let a = i * (n - 1);
    assert((i + 1) * (n - 1) == a + (n - 1)) by (nonlinear_arith)
        requires
            a == i * (n - 1),
    ;
    assert(a >= 0) by (nonlinear_arith)
        requires
            i >= 0,
            n - 1 >= 0,
            a == i * (n - 1),
    ;
    lemma_div_is_ordered(d + a, a + (n - 1), d);
    lemma_div_plus_one(a, d);
}

proof fn lemma_downsample_index_bounds(i: int, n: int, m: int)
    requires
        0 <= i < m,
        2 <= m < n,
    ensures
        0 <= downsample_index(i, n, m) <= n - 1,
        i == 0 ==> downsample_index(i, n, m) == 0,
        i == m - 1 ==> downsample_index(i, n, m) == n - 1,
{
    let d = m - 1;
    assert(0 <= i * (n - 1) <= d * (n - 1)) by (nonlinear_arith)
        requires
            0 <= i <= d,
            n - 1 >= 0,
    ;
    lemma_div_is_ordered(0, i * (n - 1), d);
    lemma_div_is_ordered(i * (n - 1), d * (n - 1), d);
    lemma_div_multiples_vanish(n - 1, d);
    assert(d * (n - 1) == (n - 1) * d) by (nonlinear_arith);
}

/// Thinning keeps order, stays in range, keeps the first and last sample,
/// and returns exactly `m` positions when there were more than `m`.
pub proof fn downsample_plan_properties(n: int, m: int)
    requires
        0 <= n,
        0 <= m,
    ensures
        downsample_plan(n, m).len() == if m == 0 || n <= m { n } else { m },
        forall|a: int, b: int|
            0 <= a < b < downsample_plan(n, m).len() ==> #[trigger] downsample_plan(n, m)[a]
                < #[trigger] downsample_plan(n, m)[b],
        forall|a: int|
            0 <= a < downsample_plan(n, m).len() ==> 0 <= #[trigger] downsample_plan(n, m)[a] < n,
        downsample_plan(n, m).len() > 0 ==> downsample_plan(n, m)[0] == if m == 1 && n > 1 { n - 1 } else { 0 },
        downsample_plan(n, m).len() > 0 ==> downsample_plan(n, m)[downsample_plan(n, m).len() - 1] == n - 1,
{
    if !(m == 0 || n <= m) && m >= 2 {
        assert forall|a: int, b: int|
            0 <= a < b < m implies #[trigger] downsample_plan(n, m)[a] < #[trigger] downsample_plan(n, m)[b] by {
            lemma_downsample_chain(a, b, n, m);
        }
        assert forall|a: int| 0 <= a < m implies 0 <= #[trigger] downsample_plan(n, m)[a] < n by {
            lemma_downsample_index_bounds(a, n, m);
        }
        lemma_downsample_index_bounds(0, n, m);
        lemma_downsample_index_bounds(m - 1, n, m);
    }
}

proof fn lemma_downsample_chain(a: int, b: int, n: int, m: int)
    requires
        0 <= a < b,
        2 <= m < n,
    ensures
        downsample_index(a, n, m) < downsample_index(b, n, m),
    decreases b - a,
{
    lemma_downsample_index_step(b - 1, n, m);
    if a < b - 1 {
        lemma_downsample_chain(a, b - 1, n, m);
    }
}

/// The positions `downsample_plan(n, m)` keeps.
pub fn downsample_indices(n: usize, max_points: usize) -> (r: Vec<usize>)
    ensures
        r@.len() == downsample_plan(n as int, max_points as int).len(),
        forall|k: int| 0 <= k < r@.len() ==> #[trigger] r@[k] as int == downsample_plan(n as int, max_points as int)[k],
{
    let mut out: Vec<usize> = Vec::new();
    if max_points == 0 || n <= max_points {
        let mut i: usize = 0;
        while i < n
            invariant
                i <= n,
                out@.len() == i,
                forall|k: int| 0 <= k < i ==> #[trigger] out@[k] as int == k,
            decreases n - i,
        {
            out.push(i);
            i = i + 1;
        }
        return out;
    }
    let mut i: usize = 0;
    while i < max_points
        invariant
            0 < max_points < n,
            i <= max_points,
            out@.len() == i,
            forall|k: int| 0 <= k < i ==> #[trigger] out@[k] as int == downsample_index(k, n as int, max_points as int),
        decreases max_points - i,
    {
        let idx: usize = if max_points == 1 {
            n - 1
        } else {
            proof {
                if max_points >= 2 {
                    lemma_downsample_index_bounds(i as int, n as int, max_points as int);
                }
            }
            assert((i as int) * ((n - 1) as int) <= 0xFFFF_FFFF_FFFF_FFFF * 0xFFFF_FFFF_FFFF_FFFF) by (nonlinear_arith)
                requires
                    0 <= i <= 0xFFFF_FFFF_FFFF_FFFF,
                    0 <= n - 1 <= 0xFFFF_FFFF_FFFF_FFFF,
            ;
            let p: u128 = (i as u128) * ((n - 1) as u128);
            assert(p == i * (n - 1));
            let q: u128 = p / ((max_points - 1) as u128);
            q as usize
        };
        out.push(idx);
        i = i + 1;
    }
    out
}

/// True when instant `t` lies in the optional inclusive bounds.
pub open spec fn in_window(t: i128, from: Option<i128>, to: Option<i128>) -> bool {
    (from matches Some(f) ==> t >= f) && (to matches Some(u) ==> t <= u)
}

/// Positions of the samples inside the window, oldest first.
pub open spec fn window_positions(times: Seq<i128>, from: Option<i128>, to: Option<i128>) -> Seq<int>
    decreases times.len(),
{
    if times.len() == 0 {
        Seq::empty()
    } else {
        let rest = window_positions(times.drop_last(), from, to);
        if in_window(times.last(), from, to) {
            rest.push(times.len() - 1)
        } else {
            rest
        }
    }
}

/// What a history query returns: the samples in the window, evenly thinned
/// to `max_points` when there are more (0 means no limit).
pub open spec fn query_plan(times: Seq<i128>, from: Option<i128>, to: Option<i128>, max_points: int) -> Seq<int> {
    let w = window_positions(times, from, to);
    let keep = downsample_plan(w.len() as int, max_points);
    Seq::new(keep.len(), |k: int| w[keep[k]])
}

/// The window positions are in range, inside the window, increasing, and
/// include every sample inside the window.
pub proof fn lemma_window_positions(times: Seq<i128>, from: Option<i128>, to: Option<i128>)
    ensures
        forall|a: int|
            0 <= a < window_positions(times, from, to).len() ==> 0 <= #[trigger] window_positions(times, from, to)[a]
                < times.len() && in_window(times[window_positions(times, from, to)[a]], from, to),
        forall|a: int, b: int|
            0 <= a < b < window_positions(times, from, to).len() ==> #[trigger] window_positions(times, from, to)[a]
                < #[trigger] window_positions(times, from, to)[b],
        forall|j: int| 0 <= j < times.len() && in_window(times[j], from, to) ==> #[trigger] window_positions(times, from, to).contains(j),
    decreases times.len(),
{
    if times.len() > 0 {
        let t = times.drop_last();
        lemma_window_positions(t, from, to);
        let rest = window_positions(t, from, to);
        assert forall|a: int| 0 <= a < rest.len() implies times[#[trigger] rest[a]] == t[rest[a]] by {}
        assert forall|j: int| 0 <= j < times.len() && in_window(times[j], from, to) implies #[trigger] window_positions(times, from, to).contains(j) by {
            if j < times.len() - 1 {
                assert(t[j] == times[j]);
                assert(rest.contains(j));
                let a = choose|a: int| 0 <= a < rest.len() && rest[a] == j;
                assert(window_positions(times, from, to)[a] == j);
            } else {
                let w = window_positions(times, from, to);
                assert(w[w.len() - 1] == j);
            }
        }
    }
}

/// A query returns samples inside the window, oldest first, at most
/// `max_points` of them when a limit is set, and every sample of the window
/// when there is no limit or the window holds no more than the limit.
pub proof fn query_plan_properties(times: Seq<i128>, from: Option<i128>, to: Option<i128>, max_points: int)
    requires
        max_points >= 0,
    ensures
        forall|k: int|
            0 <= k < query_plan(times, from, to, max_points).len() ==> 0 <= #[trigger] query_plan(times, from, to, max_points)[k]
                < times.len() && in_window(times[query_plan(times, from, to, max_points)[k]], from, to),
        forall|a: int, b: int|
            0 <= a < b < query_plan(times, from, to, max_points).len() ==> #[trigger] query_plan(times, from, to, max_points)[a]
                < #[trigger] query_plan(times, from, to, max_points)[b],
        max_points > 0 ==> query_plan(times, from, to, max_points).len() <= max_points,
        (max_points == 0 || window_positions(times, from, to).len() <= max_points) ==> query_plan(times, from, to, max_points)
            == window_positions(times, from, to),
{
    let w = window_positions(times, from, to);
    lemma_window_positions(times, from, to);
    downsample_plan_properties(w.len() as int, max_points);
    let keep = downsample_plan(w.len() as int, max_points);
    let q = query_plan(times, from, to, max_points);
    assert forall|a: int, b: int| 0 <= a < b < q.len() implies #[trigger] q[a] < #[trigger] q[b] by {
        assert(keep[a] < keep[b]);
    }
    assert forall|k: int| 0 <= k < q.len() implies 0 <= #[trigger] q[k] < times.len() && in_window(times[q[k]], from, to) by {
        assert(0 <= keep[k] < w.len());
    }
    if max_points == 0 || w.len() <= max_points {
        assert(q =~= w);
    }
}

/// Positions of the samples in the window.
pub fn window_indices(times: &Vec<i128>, from: Option<i128>, to: Option<i128>) -> (r: Vec<usize>)
    ensures
        r@.len() == window_positions(times@, from, to).len(),
        forall|k: int| 0 <= k < r@.len() ==> #[trigger] r@[k] as int == window_positions(times@, from, to)[k],
{
    let mut out: Vec<usize> = Vec::new();
    let mut i: usize = 0;
    while i < times.len()
        invariant
            i <= times.len(),
            out@.len() == window_positions(times@.take(i as int), from, to).len(),
            forall|k: int| 0 <= k < out@.len() ==> #[trigger] out@[k] as int == window_positions(times@.take(i as int), from, to)[k],
        decreases times.len() - i,
    {
        let t = times[i];
        let ghost before = times@.take(i as int);
        assert(times@.take(i + 1).drop_last() =~= before);
        let inside = match from {
            Some(f) => t >= f,
            None => true,
        } && match to {
            Some(u) => t <= u,
            None => true,
        };
        if inside {
            out.push(i);
        }
        i = i + 1;
    }
    assert(times@.take(i as int) =~= times@);
    out
}

/// The positions a history query returns (see `query_plan`).
pub fn query_indices(times: &Vec<i128>, from: Option<i128>, to: Option<i128>, max_points: usize) -> (r: Vec<usize>)
    ensures
        r@.len() == query_plan(times@, from, to, max_points as int).len(),
        forall|k: int| 0 <= k < r@.len() ==> #[trigger] r@[k] as int == query_plan(times@, from, to, max_points as int)[k],
{
    let w = window_indices(times, from, to);
    let keep = downsample_indices(w.len(), max_points);
    let ghost wp = window_positions(times@, from, to);
    proof {
        downsample_plan_properties(w.len() as int, max_points as int);
    }
    let mut out: Vec<usize> = Vec::new();
    let mut k: usize = 0;
    while k < keep.len()
        invariant
            k <= keep.len(),
            keep@.len() == downsample_plan(w.len() as int, max_points as int).len(),
            forall|j: int| 0 <= j < keep@.len() ==> #[trigger] keep@[j] as int == downsample_plan(w.len() as int, max_points as int)[j],
            forall|j: int| 0 <= j < keep@.len() ==> 0 <= #[trigger] downsample_plan(w.len() as int, max_points as int)[j] < w.len(),
            w@.len() == wp.len(),
            wp == window_positions(times@, from, to),
            forall|j: int| 0 <= j < w@.len() ==> #[trigger] w@[j] as int == wp[j],
            out@.len() == k,
            forall|j: int| 0 <= j < k ==> #[trigger] out@[j] as int == query_plan(times@, from, to, max_points as int)[j],
        decreases keep.len() - k,
    {
        let p = keep[k];
        assert(p < w.len());
        out.push(w[p]);
        k = k + 1;
    }
    out
}

/// The instant before which samples are dropped: `retention_days` (at least
/// one) before `now`, in nanoseconds.
pub open spec fn retention_cutoff_spec(now: i128, retention_days: u32) -> int {
    now - (if retention_days == 0 { 1 } else { retention_days as int }) * NANOS_PER_DAY
}

/// Retention keeps exactly `retention_days` whole days before `now`, with
/// no upper cap (a value of 0 keeps one day): the cutoff lies that many days
/// of nanoseconds before `now`, and a longer retention gives an earlier
/// cutoff, day for day.
pub proof fn retention_keeps_the_configured_days(now: i128, days: u32, more: u32)
    requires
        days < more,
    ensures
        days >= 1 ==> now - retention_cutoff_spec(now, days) == days * NANOS_PER_DAY,
        days == 0 ==> now - retention_cutoff_spec(now, days) == NANOS_PER_DAY,
        retention_cutoff_spec(now, more) < retention_cutoff_spec(now, days) || days == 0 && more == 1,
        days >= 1 ==> retention_cutoff_spec(now, days) - retention_cutoff_spec(now, more) == (more - days)
            * NANOS_PER_DAY,
{
    if days >= 1 {
        assert((more - days) * NANOS_PER_DAY == more * NANOS_PER_DAY - days * NANOS_PER_DAY) by (nonlinear_arith);
    }
    assert(more * NANOS_PER_DAY >= 2 * NANOS_PER_DAY || more == 1) by (nonlinear_arith)
        requires
            more >= 1,
    ;
    assert(days * NANOS_PER_DAY < more * NANOS_PER_DAY) by (nonlinear_arith)
        requires
            days < more,
    ;
}

/// The retention cutoff (see `retention_cutoff_spec`).
pub fn retention_cutoff(now: i128, retention_days: u32) -> (r: i128)
    requires
        -0x1_0000_0000_0000_0000_0000_0000 < now < 0x1_0000_0000_0000_0000_0000_0000,
    ensures
        r == retention_cutoff_spec(now, retention_days),
{
    let days: i128 = if retention_days == 0 { 1 } else { retention_days as i128 };
    assert(days * NANOS_PER_DAY <= 4294967295 * NANOS_PER_DAY) by (nonlinear_arith)
        requires
            0 < days <= 4294967295,
    ;
    now - days * NANOS_PER_DAY
}

/// The day number (days since 0001-01-01, as `num_days_from_ce`) of the UTC
/// date of Unix second `secs`.
pub open spec fn day_of_secs(secs: int) -> int {
    secs / 86400 + 719163
}

/// The UTC day number of Unix second `secs` (see `day_of_secs`).
pub fn utc_day_number(secs: i64) -> (r: i64)
    ensures
        r == day_of_secs(secs as int),
{
    let q: i64 = if secs >= 0 { secs / 86400 } else { -((-(secs as i128) + 86399) / 86400) as i64 };
    proof {
        if secs < 0 {
            let x = -(secs as int);
            assert(q == -((x + 86399) / 86400));
            assert((secs as int) / 86400 == -((x + 86399) / 86400)) by (nonlinear_arith)
                requires
                    x > 0,
                    x == -(secs as int),
            ;
        }
    }
    q + 719163
}

/// Samples kept by a prune: those that parse and are not older than the cutoff.
pub open spec fn prune_keeps(t: Option<i128>, cutoff: i128) -> bool {
    t matches Some(x) && x >= cutoff
}

/// Positions of the lines a prune keeps, in order.
pub open spec fn prune_positions(times: Seq<Option<i128>>, cutoff: i128) -> Seq<int>
    decreases times.len(),
{
    if times.len() == 0 {
        Seq::empty()
    } else {
        let rest = prune_positions(times.drop_last(), cutoff);
        if prune_keeps(times.last(), cutoff) {
            rest.push(times.len() - 1)
        } else {
            rest
        }
    }
}

/// A prune keeps exactly the readable samples not older than the cutoff,
/// in their order in the file.
pub proof fn prune_positions_properties(times: Seq<Option<i128>>, cutoff: i128)
    ensures
        forall|a: int|
            0 <= a < prune_positions(times, cutoff).len() ==> 0 <= #[trigger] prune_positions(times, cutoff)[a]
                < times.len() && prune_keeps(times[prune_positions(times, cutoff)[a]], cutoff),
        forall|a: int, b: int|
            0 <= a < b < prune_positions(times, cutoff).len() ==> #[trigger] prune_positions(times, cutoff)[a]
                < #[trigger] prune_positions(times, cutoff)[b],
        forall|j: int| 0 <= j < times.len() && prune_keeps(times[j], cutoff) ==> #[trigger] prune_positions(times, cutoff).contains(j),
    decreases times.len(),
{
    if times.len() > 0 {
        let t = times.drop_last();
        prune_positions_properties(t, cutoff);
        let rest = prune_positions(t, cutoff);
        assert forall|a: int| 0 <= a < rest.len() implies times[#[trigger] rest[a]] == t[rest[a]] by {}
        assert forall|j: int| 0 <= j < times.len() && prune_keeps(times[j], cutoff) implies #[trigger] prune_positions(times, cutoff).contains(j) by {
            if j < times.len() - 1 {
                assert(t[j] == times[j]);
                assert(rest.contains(j));
                let a = choose|a: int| 0 <= a < rest.len() && rest[a] == j;
                assert(prune_positions(times, cutoff)[a] == j);
            } else {
                let w = prune_positions(times, cutoff);
                assert(w[w.len() - 1] == j);
            }
        }
    }
}

/// Which lines of the metrics history survive a prune (unparsable lines and
/// samples older than `cutoff` go), and how many go.
pub fn prune_plan(times: &Vec<Option<i128>>, cutoff: i128) -> (r: (Vec<usize>, usize))
    ensures
        r.0@.len() == prune_positions(times@, cutoff).len(),
        forall|k: int| 0 <= k < r.0@.len() ==> #[trigger] r.0@[k] as int == prune_positions(times@, cutoff)[k],
        r.1 == times@.len() - r.0@.len(),
{
    let mut kept: Vec<usize> = Vec::new();
    let mut i: usize = 0;
    while i < times.len()
        invariant
            i <= times.len(),
            kept@.len() <= i,
            kept@.len() == prune_positions(times@.take(i as int), cutoff).len(),
            forall|k: int| 0 <= k < kept@.len() ==> #[trigger] kept@[k] as int == prune_positions(times@.take(i as int), cutoff)[k],
        decreases times.len() - i,
    {
        assert(times@.take(i + 1).drop_last() =~= times@.take(i as int));
        let keep = match times[i] {
            Some(t) => t >= cutoff,
            None => false,
        };
        if keep {
            kept.push(i);
        }
        i = i + 1;
    }
    assert(times@.take(i as int) =~= times@);
    let removed = times.len() - kept.len();
    (kept, removed)
}

/// True for the live service log and its daily rotations (`smos.log`,
/// `smos.log.<suffix>` not ending in `.tmp`).
pub open spec fn is_service_log_name_spec(name: Seq<char>) -> bool {
    name == "smos.log"@ || ("smos.log."@.is_prefix_of(name) && !".tmp"@.is_suffix_of(name))
}

/// True when `p` is a suffix of `s`.
fn has_suffix(s: &Vec<char>, p: &Vec<char>) -> (r: bool)
    ensures
        r == p@.is_suffix_of(s@),
{
    if p.len() > s.len() {
        return false;
    }
    let off = s.len() - p.len();
    let mut i: usize = 0;
    while i < p.len()
        invariant
            i <= p.len() <= s.len(),
            off == s.len() - p.len(),
            forall|k: int| 0 <= k < i ==> p@[k] == s@[off + k],
        decreases p.len() - i,
    {
        if p[i] != s[off + i] {
            return false;
        }
        i = i + 1;
    }
    true
}

/// True for the live service log and its daily rotations.
pub fn is_service_log_name(name: &str) -> (r: bool)
    ensures
        r == is_service_log_name_spec(name@),
{
    let v = chars_of(name);
    let live = chars_of("smos.log");
    let prefix = chars_of("smos.log.");
    let tmp = chars_of(".tmp");
    let same = v.len() == live.len() && has_prefix(&v, &live);
    if same {
        assert(v@ =~= live@);
        return true;
    }
    has_prefix(&v, &prefix) && !has_suffix(&v, &tmp)
}


/// Date format of a rotated log's name suffix.
pub const LOG_DAY_FORMAT: &'static str = "%Y-%m-%d";

/// The day number (`num_days_from_ce`) of text `s`, when chrono parses it
/// with format `fmt`.
pub uninterp spec fn parsed_day(s: Seq<char>, fmt: Seq<char>) -> Option<i32>;

/// `NaiveDate::parse_from_str(s, fmt)`, as a day number. The result is
/// named, nothing more.
#[verifier::external_body]
pub(crate) fn parse_day(s: &str, fmt: &str) -> (r: Option<i32>)
    ensures
        r == parsed_day(s@, fmt@),
{
    chrono::NaiveDate::parse_from_str(s, fmt).ok().map(|d| chrono::Datelike::num_days_from_ce(&d))
}

/// The date in a rotated log's name (`smos.log.YYYY-MM-DD`), if any.
pub open spec fn log_day_of(name: Seq<char>) -> Option<i32> {
    if "smos.log."@.is_prefix_of(name) {
        parsed_day(name.skip(9), LOG_DAY_FORMAT@)
    } else {
        None
    }
}

/// Whether a rotated log is past retention, from its date when the name
/// carries one, else from its modification time (files with neither stay).
pub open spec fn log_expired_spec(day: Option<i32>, modified: Option<i128>, cutoff_day: i64, cutoff_time: i128) -> bool {
    match day {
        Some(d) => d < cutoff_day,
        None => match modified {
            Some(m) => m < cutoff_time,
            None => false,
        },
    }
}

/// See `log_expired_spec`.
pub fn log_expired(day: Option<i32>, modified: Option<i128>, cutoff_day: i64, cutoff_time: i128) -> (r: bool)
    ensures
        r == log_expired_spec(day, modified, cutoff_day, cutoff_time),
{
    match day {
        Some(d) => (d as i64) < cutoff_day,
        None => match modified {
            Some(m) => m < cutoff_time,
            None => false,
        },
    }
}

/// Whether the log file `name` is removed by a prune; the live `smos.log`
/// never is.
pub fn log_file_expired(name: &str, modified: Option<i128>, cutoff_day: i64, cutoff_time: i128) -> (r: bool)
    ensures
        r == (name@ != "smos.log"@ && log_expired_spec(log_day_of(name@), modified, cutoff_day, cutoff_time)),
{
    let v = chars_of(name);
    let live = chars_of("smos.log");
    if v.len() == live.len() && has_prefix(&v, &live) {
        assert(v@ =~= live@);
        return false;
    }
    let prefix = chars_of("smos.log.");
    let day = if has_prefix(&v, &prefix) {
        proof {
            reveal_strlit("smos.log.");
        }
        let suffix = crate::text::string_from_range(&v, 9, v.len());
        assert(suffix@ =~= name@.skip(9));
        parse_day(suffix.as_str(), LOG_DAY_FORMAT)
    } else {
        None
    };
    log_expired(day, modified, cutoff_day, cutoff_time)
}

/// Sum of the sizes (saturating at `u64::MAX`).
pub open spec fn sum_sizes(s: Seq<u64>) -> int
    decreases s.len(),
{
    if s.len() == 0 {
        0
    } else {
        sum_sizes(s.drop_last()) + s.last()
    }
}

/// Total bytes of the history log files.
pub fn total_bytes(sizes: &Vec<u64>) -> (r: u64)
    ensures
        sum_sizes(sizes@) <= u64::MAX ==> r == sum_sizes(sizes@),
        sum_sizes(sizes@) > u64::MAX ==> r == u64::MAX,
{
    let mut total: u64 = 0;
    let mut i: usize = 0;
    let mut saturated = false;
    while i < sizes.len()
        invariant
            i <= sizes.len(),
            !saturated ==> total == sum_sizes(sizes@.take(i as int)),
            saturated ==> total == u64::MAX && sum_sizes(sizes@.take(i as int)) > u64::MAX,
        decreases sizes.len() - i,
    {
        assert(sizes@.take(i + 1).drop_last() =~= sizes@.take(i as int));
        if saturated {
        } else if total > u64::MAX - sizes[i] {
            total = u64::MAX;
            saturated = true;
        } else {
            total = total + sizes[i];
        }
        i = i + 1;
    }
    assert(sizes@.take(i as int) =~= sizes@);
    total
}


/// `a <= b` in the order of `String`'s `Ord` (byte order of UTF-8, which is
/// the order of the code points).
pub open spec fn lex_le(a: Seq<char>, b: Seq<char>) -> bool
    decreases a.len(),
{
    if a.len() == 0 {
        true
    } else if b.len() == 0 {
        false
    } else if (a[0] as u32) < (b[0] as u32) {
        true
    } else if (a[0] as u32) > (b[0] as u32) {
        false
    } else {
        lex_le(a.drop_first(), b.drop_first())
    }
}

/// `lex_le` is total.
pub proof fn lemma_lex_total(a: Seq<char>, b: Seq<char>)
    ensures
        lex_le(a, b) || lex_le(b, a),
    decreases a.len(),
{
    if a.len() > 0 && b.len() > 0 && a[0] as u32 == b[0] as u32 {
        lemma_lex_total(a.drop_first(), b.drop_first());
    }
}

/// `lex_le` is transitive.
pub proof fn lemma_lex_trans(a: Seq<char>, b: Seq<char>, c: Seq<char>)
    requires
        lex_le(a, b),
        lex_le(b, c),
    ensures
        lex_le(a, c),
    decreases a.len(),
{
    if a.len() > 0 && b.len() > 0 && c.len() > 0 && a[0] as u32 == b[0] as u32 && b[0] as u32 == c[0] as u32 {
        lemma_lex_trans(a.drop_first(), b.drop_first(), c.drop_first());
    }
}

/// `a <= b` (see `lex_le`).
pub fn lex_le_chars(a: &Vec<char>, b: &Vec<char>) -> (r: bool)
    ensures
        r == lex_le(a@, b@),
{
    let mut i: usize = 0;
    assert(a@.skip(0) =~= a@ && b@.skip(0) =~= b@);
    while i < a.len() && i < b.len() && (a[i] as u32) == (b[i] as u32)
        invariant
            i <= a.len(),
            i <= b.len(),
            lex_le(a@, b@) == lex_le(a@.skip(i as int), b@.skip(i as int)),
        decreases a.len() - i,
    {
        assert(a@.skip(i as int).drop_first() =~= a@.skip(i + 1));
        assert(b@.skip(i as int).drop_first() =~= b@.skip(i + 1));
        i = i + 1;
    }
    if i == a.len() {
        true
    } else if i == b.len() {
        false
    } else {
        (a[i] as u32) < (b[i] as u32)
    }
}

/// `v` lists names in descending order: each later one is `<=` each earlier one.
pub open spec fn sorted_desc(names: Seq<Seq<char>>, order: Seq<usize>) -> bool {
    forall|a: int, b: int| 0 <= a < b < order.len() ==> lex_le(#[trigger] names[order[b] as int], #[trigger] names[order[a] as int])
}

/// `order` lists each position of `0..n` once.
pub open spec fn is_permutation(order: Seq<usize>, n: int) -> bool {
    &&& order.len() == n
    &&& forall|k: int| 0 <= k < order.len() ==> #[trigger] order[k] < n
    &&& forall|a: int, b: int| 0 <= a < b < order.len() ==> #[trigger] order[a] != #[trigger] order[b]
}

/// The order in which the history lists log files: by name, descending
/// (newest rotation first). Equal names keep their order.
pub fn sort_names_desc(names: &Vec<String>) -> (r: Vec<usize>)
    ensures
        is_permutation(r@, names@.len() as int),
        sorted_desc(names@.map_values(|s: String| s@), r@),
{
    let ghost nv = names@.map_values(|s: String| s@);
    let mut chars: Vec<Vec<char>> = Vec::new();
    let mut j: usize = 0;
    while j < names.len()
        invariant
            j <= names.len(),
            chars@.len() == j,
            nv == names@.map_values(|s: String| s@),
            forall|k: int| 0 <= k < j ==> #[trigger] chars@[k]@ == nv[k],
        decreases names.len() - j,
    {
        chars.push(crate::text::chars_of(names[j].as_str()));
        j = j + 1;
    }
    let n = names.len();
    let mut out: Vec<usize> = Vec::new();
    let mut i: usize = 0;
    while i < n
        invariant
            i <= n == names@.len() == chars@.len() == nv.len(),
            forall|k: int| 0 <= k < n ==> #[trigger] chars@[k]@ == nv[k],
            out@.len() == i,
            forall|k: int| 0 <= k < out@.len() ==> #[trigger] out@[k] < i,
            forall|a: int, b: int| 0 <= a < b < out@.len() ==> #[trigger] out@[a] != #[trigger] out@[b],
            sorted_desc(nv, out@),
        decreases n - i,
    {
        // position of the first name strictly below names[i]
        let mut p: usize = 0;
        while p < out.len() && lex_le_chars(&chars[i], &chars[out[p]])
            invariant
                p <= out@.len() == i < n,
                n == chars@.len() == nv.len(),
                forall|k: int| 0 <= k < n ==> #[trigger] chars@[k]@ == nv[k],
                forall|k: int| 0 <= k < out@.len() ==> #[trigger] out@[k] < i,
                forall|a: int| 0 <= a < p ==> lex_le(nv[i as int], #[trigger] nv[out@[a] as int]),
            decreases out@.len() - p,
        {
            p = p + 1;
        }
        let ghost before = out@;
        proof {
            if p < before.len() {
                assert(!lex_le(nv[i as int], nv[before[p as int] as int]));
                lemma_lex_total(nv[i as int], nv[before[p as int] as int]);
            }
        }
        out.insert(p, i);
        assert forall|a: int, b: int| 0 <= a < b < out@.len() implies lex_le(#[trigger] nv[out@[b] as int], #[trigger] nv[out@[a] as int]) by {
            if a < p && b < p {
                assert(out@[a] == before[a] && out@[b] == before[b]);
            } else if a < p && b == p {
                assert(out@[a] == before[a]);
            } else if a < p {
                assert(out@[a] == before[a] && out@[b] == before[b - 1]);
                assert(lex_le(nv[before[b - 1] as int], nv[before[a] as int]));
            } else if a == p {
                assert(out@[b] == before[b - 1]);
                if b - 1 > p {
                    assert(lex_le(nv[before[b - 1] as int], nv[before[p as int] as int]));
                    lemma_lex_trans(nv[before[b - 1] as int], nv[before[p as int] as int], nv[i as int]);
                }
            } else {
                assert(out@[a] == before[a - 1] && out@[b] == before[b - 1]);
            }
        }
        assert forall|a: int, b: int| 0 <= a < b < out@.len() implies #[trigger] out@[a] != #[trigger] out@[b] by {
            if a < p && b < p {
                assert(out@[a] == before[a] && out@[b] == before[b]);
            } else if a < p && b == p {
                assert(out@[a] == before[a]);
            } else if a < p {
                assert(out@[a] == before[a] && out@[b] == before[b - 1]);
            } else if a == p {
                assert(out@[b] == before[b - 1]);
            } else {
                assert(out@[a] == before[a - 1] && out@[b] == before[b - 1]);
            }
        }
        assert forall|k: int| 0 <= k < out@.len() implies #[trigger] out@[k] < i + 1 by {
            if k < p {
                assert(out@[k] == before[k]);
            } else if k > p {
                assert(out@[k] == before[k - 1]);
            }
        }
        i = i + 1;
    }
    out
}

} // verus!
