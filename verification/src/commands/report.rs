//! The time-per-project report.

use crate::calendar::{min_day_number, Date};
use crate::commands::{date_range_on, DefaultRange, RangeError};
use crate::commands::submit::{all_completed, max_delta_seconds, sums_fit, total_seconds};
use crate::models::{timestamp_in_range, TimeEntry};
use crate::sort::{is_permutation, lemma_sum_permuted, seq_sum, sorts_stably, stable_sort, Largest, Ordered};
use crate::text::chars_eq;
use crate::text::chars_of;
use vstd::prelude::*;

verus! {

/// The arguments of `report`.
pub struct Args {
    pub month: bool,
    pub from: Option<String>,
    pub to: Option<String>,
    pub json: bool,
}

/// The dates listed, as of `today`: `--from` through `--to` (or today),
/// else this week so far (or, with `--month`, this month so far).
pub fn range_on(today: Date, month: bool, from: Option<&str>, to: Option<&str>) -> (r: Result<
    (Date, Date),
    RangeError,
>)
    requires
        today.wf(),
        from is None && to is None && !month ==> today.day_number() - today.weekday() >= min_day_number(),
    ensures
        crate::commands::range_outcome(today, if month { DefaultRange::ThisMonth } else { DefaultRange::ThisWeek }, crate::commands::submit::opt_view(from), crate::commands::submit::opt_view(to), r),
{
    date_range_on(today, if month { DefaultRange::ThisMonth } else { DefaultRange::ThisWeek }, from, to)
}

/// Time tracked on one project (or on none) in a report.
#[derive(Debug, Clone, PartialEq, Eq)]
pub struct ProjectTotal {
    pub project_id: Option<String>,
    /// Seconds tracked.
    pub seconds: i64,
}

pub open spec fn project_key(e: TimeEntry) -> Option<Seq<char>> {
    match e.project_id {
        Some(id) => Some(id@),
        None => None,
    }
}

/// The distinct projects of the first `k` entries, in order of first appearance.
pub open spec fn first_keys(entries: Seq<TimeEntry>, k: int) -> Seq<Option<Seq<char>>>
    decreases k,
{
    if k <= 0 {
        Seq::empty()
    } else if first_keys(entries, k - 1).contains(project_key(entries[k - 1])) {
        first_keys(entries, k - 1)
    } else {
        first_keys(entries, k - 1).push(project_key(entries[k - 1]))
    }
}

/// Seconds tracked, up to `now`, by the first `k` entries on project `key`.
pub open spec fn key_seconds(entries: Seq<TimeEntry>, key: Option<Seq<char>>, k: int, now: int) -> int
    decreases k,
{
    if k <= 0 {
        0
    } else if project_key(entries[k - 1]) == key {
        key_seconds(entries, key, k - 1, now) + entries[k - 1].seconds_until(now)
    } else {
        key_seconds(entries, key, k - 1, now)
    }
}

/// Adding up the entries of each project one by one never leaves the range of
/// a duration.
pub open spec fn key_sums_fit(entries: Seq<TimeEntry>, now: int) -> bool {
    forall|key: Option<Seq<char>>, k: int|
        0 <= k <= entries.len() ==> -max_delta_seconds() <= #[trigger] key_seconds(entries, key, k, now)
            <= max_delta_seconds()
}

fn opt_chars(s: &Option<String>) -> (r: Option<Vec<char>>)
    ensures
        match s {
            Some(t) => r matches Some(v) && v@ == t@,
            None => r is None,
        },
{
    match s {
        Some(t) => Some(chars_of(t.as_str())),
        None => None,
    }
}

fn same_key(a: &Option<Vec<char>>, b: &Option<Vec<char>>) -> (r: bool)
    ensures
        r == (match (a, b) {
            (Some(x), Some(y)) => x@ == y@,
            (None, None) => true,
            _ => false,
        }),
{
    match (a, b) {
        (Some(x), Some(y)) => chars_eq(x.as_slice(), y.as_slice()),
        (None, None) => true,
        _ => false,
    }
}

pub open spec fn key_view(k: Option<Vec<char>>) -> Option<Seq<char>> {
    match k {
        Some(v) => Some(v@),
        None => None,
    }
}

/// `rows` are the times per project of `entries`, running ones counted up
/// to `now`: one row for each project the entries name (or for none),
/// largest first, and projects with equal time in the order in which they
/// first appear.
pub open spec fn are_project_totals(entries: Seq<TimeEntry>, now: int, rows: Seq<ProjectTotal>) -> bool {
    let keys = first_keys(entries, entries.len() as int);
    exists|order: Seq<usize>|
        {
            &&& is_permutation(order, keys.len() as int)
            &&& rows.len() == keys.len()
            &&& forall|i: int|
                0 <= i < rows.len() ==> {
                    &&& (match #[trigger] rows[i].project_id {
                        Some(id) => Some(id@),
                        None => None,
                    }) == keys[order[i] as int]
                    &&& rows[i].seconds == key_seconds(entries, keys[order[i] as int], entries.len() as int, now)
                }
            &&& forall|i: int, j: int|
                0 <= i < j < rows.len() ==> #[trigger] rows[i].seconds >= #[trigger] rows[j].seconds
            &&& forall|i: int, j: int|
                #![trigger order[i], order[j]]
                0 <= i < j < rows.len() && rows[i].seconds == rows[j].seconds ==> order[i] < order[j]
        }
}

/// Time per project, largest first; projects with equal time keep the order
/// in which they first appear among `entries`. Running entries count up to `now`.
#[verifier::spinoff_prover]
pub fn project_totals(entries: &[TimeEntry], now: i64) -> (r: Vec<ProjectTotal>)
    requires
        forall|i: int| 0 <= i < entries@.len() ==> (#[trigger] entries@[i]).time_interval.wf(),
        timestamp_in_range(now as int),
        key_sums_fit(entries@, now as int),
    ensures
        are_project_totals(entries@, now as int, r@),
{
    let mut keys: Vec<Option<Vec<char>>> = Vec::new();
    let mut ids: Vec<Option<String>> = Vec::new();
    let mut totals: Vec<i64> = Vec::new();
    let mut k: usize = 0;
    while k < entries.len()
        invariant
            k <= entries@.len(),
            forall|i: int| 0 <= i < entries@.len() ==> (#[trigger] entries@[i]).time_interval.wf(),
            timestamp_in_range(now as int),
            key_sums_fit(entries@, now as int),
            keys@.len() == ids@.len() == totals@.len() == first_keys(entries@, k as int).len(),
            forall|g: int|
                0 <= g < keys@.len() ==> key_view(#[trigger] keys@[g]) == first_keys(entries@, k as int)[g]
                    && (match ids@[g] {
                    Some(id) => Some(id@),
                    None => None,
                }) == first_keys(entries@, k as int)[g] && totals@[g] == key_seconds(
                    entries@,
                    first_keys(entries@, k as int)[g],
                    k as int,
                    now as int,
                ),
        decreases entries@.len() - k,
    {
        let e = &entries[k];
        let key = opt_chars(&e.project_id);
        let d = e.duration_at(now);
        let ghost fk = first_keys(entries@, k as int);
        let ghost kk = project_key(entries@[k as int]);
        let mut g: usize = 0;
        while g < keys.len() && !same_key(&keys[g], &key)
            invariant
                g <= keys@.len(),
                key_view(key) == kk,
                forall|h: int| 0 <= h < g ==> key_view(#[trigger] keys@[h]) != kk,
            decreases keys@.len() - g,
        {
            g = g + 1;
        }
        let found = g < keys.len();
        proof {
            assert(key_view(key) == kk);
        }
        if found {
            proof {
                assert(fk.contains(kk));
                assert(first_keys(entries@, k + 1) == fk);
                assert(key_seconds(entries@, kk, k + 1, now as int) == totals@[g as int] + d);
                assert(-max_delta_seconds() <= key_seconds(entries@, kk, k + 1, now as int));
                assert(key_seconds(entries@, kk, k + 1, now as int) <= max_delta_seconds());
            }
            let t = totals[g] + d;
            totals.set(g, t);
            proof {
                assert forall|h: int| 0 <= h < keys@.len() && h != g implies key_seconds(
                    entries@,
                    fk[h],
                    k + 1,
                    now as int,
                ) == key_seconds(entries@, fk[h], k as int, now as int) by {
                    lemma_first_keys_distinct(entries@, k as int);
                    assert(fk[h] != fk[g as int]);
                }
            }
        } else {
            proof {
                assert(!fk.contains(kk)) by {
                    if fk.contains(kk) {
                        let h = choose|h: int| 0 <= h < fk.len() && #[trigger] fk[h] == kk;
                        assert(key_view(keys@[h]) == kk);
                    }
                }
                assert(first_keys(entries@, k + 1) == fk.push(kk));
                assert(key_seconds(entries@, kk, k as int, now as int) == 0) by {
                    lemma_absent_key_zero(entries@, kk, k as int, now as int);
                }
            }
            keys.push(key);
            ids.push(match &e.project_id {
                Some(id) => Some(id.clone()),
                None => None,
            });
            totals.push(d);
            proof {
                assert forall|h: int| 0 <= h < fk.len() implies key_seconds(
                    entries@,
                    fk[h],
                    k + 1,
                    now as int,
                ) == key_seconds(entries@, fk[h], k as int, now as int) by {
                    assert(key_view(keys@[h]) != kk);
                }
            }
        }
        k = k + 1;
    }
    let mut sort_keys: Vec<Largest> = Vec::new();
    let mut i: usize = 0;
    while i < totals.len()
        invariant
            i <= totals@.len(),
            sort_keys@.len() == i,
            forall|j: int| 0 <= j < i ==> (#[trigger] sort_keys@[j]).0 == totals@[j],
        decreases totals@.len() - i,
    {
        sort_keys.push(Largest(totals[i]));
        i = i + 1;
    }
    let order = stable_sort(sort_keys.as_slice());
    let mut out: Vec<ProjectTotal> = Vec::new();
    let mut m: usize = 0;
    while m < order.len()
        invariant
            m <= order@.len(),
            is_permutation(order@, totals@.len() as int),
            sorts_stably(sort_keys@, order@),
            sort_keys@.len() == totals@.len(),
            forall|j: int| 0 <= j < totals@.len() ==> (#[trigger] sort_keys@[j]).0 == totals@[j],
            ids@.len() == totals@.len(),
            out@.len() == m,
            forall|j: int|
                0 <= j < m ==> (#[trigger] out@[j]).project_id == ids@[order@[j] as int] && out@[j].seconds
                    == totals@[order@[j] as int],
        decreases order@.len() - m,
    {
        let g = order[m];
        let id = match &ids[g] {
            Some(s) => Some(s.clone()),
            None => None,
        };
        out.push(ProjectTotal { project_id: id, seconds: totals[g] });
        m = m + 1;
    }
    proof {
        let keys_all = first_keys(entries@, entries@.len() as int);
        let o = order@;
        assert forall|i: int, j: int|
            0 <= i < j < out@.len() implies #[trigger] out@[i].seconds >= #[trigger] out@[j].seconds by {
            assert(sort_keys@[o[i] as int].le(&sort_keys@[o[j] as int]));
        }
        assert forall|i: int, j: int|
            #![trigger o[i], o[j]]
            0 <= i < j < out@.len() && out@[i].seconds == out@[j].seconds implies o[i] < o[j] by {
            assert(sort_keys@[o[j] as int].le(&sort_keys@[o[i] as int]));
        }
        assert forall|i: int| 0 <= i < out@.len() implies {
            &&& (match #[trigger] out@[i].project_id {
                Some(id) => Some(id@),
                None => None,
            }) == keys_all[o[i] as int]
            &&& out@[i].seconds == key_seconds(
                entries@,
                keys_all[o[i] as int],
                entries@.len() as int,
                now as int,
            )
        } by {
            let g = o[i] as int;
            assert(out@[i].project_id == ids@[g]);
            assert(key_view(keys@[g]) == keys_all[g]);
        }
    }
    out
}

/// Each project appears once among the first keys.
proof fn lemma_first_keys_distinct(entries: Seq<TimeEntry>, k: int)
    ensures
        forall|i: int, j: int|
            0 <= i < j < first_keys(entries, k).len() ==> #[trigger] first_keys(entries, k)[i]
                != #[trigger] first_keys(entries, k)[j],
    decreases k,
{
    if k > 0 {
        lemma_first_keys_distinct(entries, k - 1);
        let prev = first_keys(entries, k - 1);
        let cur = first_keys(entries, k);
        if !prev.contains(project_key(entries[k - 1])) {
            assert forall|i: int, j: int| 0 <= i < j < cur.len() implies #[trigger] cur[i] != #[trigger] cur[j] by {
                if j == prev.len() {
                    assert(cur[i] == prev[i]);
                    if cur[i] == cur[j] {
                        assert(prev.contains(project_key(entries[k - 1])));
                    }
                } else {
                    assert(cur[i] == prev[i] && cur[j] == prev[j]);
                }
            }
        }
    }
}

/// Entries of a project that has not appeared yet add nothing.
proof fn lemma_absent_key_zero(entries: Seq<TimeEntry>, key: Option<Seq<char>>, k: int, now: int)
    requires
        0 <= k <= entries.len(),
        !first_keys(entries, k).contains(key),
    ensures
        key_seconds(entries, key, k, now) == 0,
    decreases k,
{
    if k > 0 {
        assert(!first_keys(entries, k - 1).contains(key)) by {
            if first_keys(entries, k - 1).contains(key) {
                let prev = first_keys(entries, k - 1);
                let h = choose|h: int| 0 <= h < prev.len() && #[trigger] prev[h] == key;
                if !first_keys(entries, k - 1).contains(project_key(entries[k - 1])) {
                    assert(first_keys(entries, k)[h] == key);
                }
            }
        }
        if project_key(entries[k - 1]) == key {
            assert(first_keys(entries, k - 1).contains(key) || first_keys(entries, k)
                =~= first_keys(entries, k - 1).push(key));
            assert(first_keys(entries, k).contains(key)) by {
                if first_keys(entries, k - 1).contains(key) {
                } else {
                    assert(first_keys(entries, k)[first_keys(entries, k - 1).len() as int] == key);
                }
            }
        }
        lemma_absent_key_zero(entries, key, k - 1, now);
    }
}

/// Seconds tracked, up to `now`, by the first `k` entries.
pub open spec fn entries_seconds(entries: Seq<TimeEntry>, k: int, now: int) -> int
    decreases k,
{
    if k <= 0 || k > entries.len() {
        0
    } else {
        entries_seconds(entries, k - 1, now) + entries[k - 1].seconds_until(now)
    }
}

/// Adding up all the entries one by one never leaves the range of a duration.
pub open spec fn entry_sums_fit(entries: Seq<TimeEntry>, now: int) -> bool {
    forall|k: int|
        0 <= k <= entries.len() ==> -max_delta_seconds() <= #[trigger] entries_seconds(entries, k, now)
            <= max_delta_seconds()
}

/// The time a report covers: the length of every entry, running ones up to
/// `now`.
pub fn report_total(entries: &[TimeEntry], now: i64) -> (r: i64)
    requires
        forall|i: int| 0 <= i < entries@.len() ==> (#[trigger] entries@[i]).time_interval.wf(),
        timestamp_in_range(now as int),
        entry_sums_fit(entries@, now as int),
    ensures
        r == entries_seconds(entries@, entries@.len() as int, now as int),
{
    let mut total: i64 = 0;
    let mut k: usize = 0;
    while k < entries.len()
        invariant
            k <= entries@.len(),
            forall|i: int| 0 <= i < entries@.len() ==> (#[trigger] entries@[i]).time_interval.wf(),
            timestamp_in_range(now as int),
            entry_sums_fit(entries@, now as int),
            total == entries_seconds(entries@, k as int, now as int),
        decreases entries@.len() - k,
    {
        let d = entries[k].duration_at(now);
        assert(entries_seconds(entries@, k + 1, now as int) == total + d);
        total = total + d;
        k = k + 1;
    }
    total
}

/// The seconds of all the rows together.
pub open spec fn rows_seconds(rows: Seq<ProjectTotal>) -> int {
    seq_sum(rows.map_values(|r: ProjectTotal| r.seconds as int))
}

/// The seconds the first `k` entries track on each of `keys`, key by key.
pub open spec fn per_key_seconds(entries: Seq<TimeEntry>, keys: Seq<Option<Seq<char>>>, k: int, now: int) -> Seq<int> {
    keys.map_values(|key: Option<Seq<char>>| key_seconds(entries, key, k, now))
}

pub open spec fn keys_distinct(keys: Seq<Option<Seq<char>>>) -> bool {
    forall|i: int, j: int| 0 <= i < j < keys.len() ==> #[trigger] keys[i] != #[trigger] keys[j]
}

/// Before any entry, no key has time.
proof fn lemma_no_entries_no_time(entries: Seq<TimeEntry>, keys: Seq<Option<Seq<char>>>, now: int)
    ensures
        seq_sum(per_key_seconds(entries, keys, 0, now)) == 0,
    decreases keys.len(),
{
    if keys.len() > 0 {
        lemma_no_entries_no_time(entries, keys.drop_last(), now);
        assert(per_key_seconds(entries, keys, 0, now).drop_last() =~= per_key_seconds(entries, keys.drop_last(), 0, now));
    }
}

/// One more entry adds its length to the sum over distinct keys exactly when
/// its project is among them.
proof fn lemma_keys_step(entries: Seq<TimeEntry>, keys: Seq<Option<Seq<char>>>, k: int, now: int)
    requires
        1 <= k <= entries.len(),
        keys_distinct(keys),
    ensures
        seq_sum(per_key_seconds(entries, keys, k, now)) == seq_sum(per_key_seconds(entries, keys, k - 1, now))
            + (if keys.contains(project_key(entries[k - 1])) { entries[k - 1].seconds_until(now) } else { 0 }),
    decreases keys.len(),
{
    if keys.len() > 0 {
        let rest = keys.drop_last();
        lemma_keys_step(entries, rest, k, now);
        assert(per_key_seconds(entries, keys, k, now).drop_last() =~= per_key_seconds(entries, rest, k, now));
        assert(per_key_seconds(entries, keys, k - 1, now).drop_last() =~= per_key_seconds(entries, rest, k - 1, now));
        let pk = project_key(entries[k - 1]);
        if keys.last() == pk {
            assert(!rest.contains(pk)) by {
                if rest.contains(pk) {
                    let h = choose|h: int| 0 <= h < rest.len() && #[trigger] rest[h] == pk;
                    assert(keys[h] != keys[keys.len() - 1]);
                }
            }
            assert(keys.contains(pk)) by {
                assert(keys[keys.len() - 1] == pk);
            }
        } else {
            assert(keys.contains(pk) == rest.contains(pk)) by {
                if keys.contains(pk) {
                    let h = choose|h: int| 0 <= h < keys.len() && #[trigger] keys[h] == pk;
                    assert(rest[h] == pk);
                }
                if rest.contains(pk) {
                    let h = choose|h: int| 0 <= h < rest.len() && #[trigger] rest[h] == pk;
                    assert(keys[h] == pk);
                }
            }
        }
    }
}

/// Every project of the first `k` entries is among their first keys.
proof fn lemma_first_keys_cover(entries: Seq<TimeEntry>, k: int, i: int)
    requires
        0 <= i < k <= entries.len(),
    ensures
        first_keys(entries, k).contains(project_key(entries[i])),
    decreases k,
{
    let prev = first_keys(entries, k - 1);
    if i < k - 1 {
        lemma_first_keys_cover(entries, k - 1, i);
        let h = choose|h: int| 0 <= h < prev.len() && #[trigger] prev[h] == project_key(entries[i]);
        if !prev.contains(project_key(entries[k - 1])) {
            assert(first_keys(entries, k)[h] == prev[h]);
        }
    } else if !prev.contains(project_key(entries[k - 1])) {
        assert(first_keys(entries, k)[prev.len() as int] == project_key(entries[k - 1]));
    }
}

/// Over distinct keys that include the project of each of the first `k`
/// entries, the time per key adds up to the time of those entries.
proof fn lemma_keys_add_up(entries: Seq<TimeEntry>, keys: Seq<Option<Seq<char>>>, k: int, now: int)
    requires
        0 <= k <= entries.len(),
        keys_distinct(keys),
        forall|i: int| 0 <= i < k ==> keys.contains(#[trigger] project_key(entries[i])),
    ensures
        seq_sum(per_key_seconds(entries, keys, k, now)) == entries_seconds(entries, k, now),
    decreases k,
{
    if k == 0 {
        lemma_no_entries_no_time(entries, keys, now);
    } else {
        lemma_keys_add_up(entries, keys, k - 1, now);
        lemma_keys_step(entries, keys, k, now);
        assert(keys.contains(project_key(entries[k - 1])));
    }
}

/// The times per project of a report add up to its total.
pub proof fn lemma_project_totals_add_up(entries: Seq<TimeEntry>, now: int, rows: Seq<ProjectTotal>)
    requires
        are_project_totals(entries, now, rows),
    ensures
        rows_seconds(rows) == entries_seconds(entries, entries.len() as int, now),
{
    let n = entries.len() as int;
    let keys = first_keys(entries, n);
    let order = choose|order: Seq<usize>|
        {
            &&& is_permutation(order, keys.len() as int)
            &&& rows.len() == keys.len()
            &&& forall|i: int|
                0 <= i < rows.len() ==> {
                    &&& (match #[trigger] rows[i].project_id {
                        Some(id) => Some(id@),
                        None => None,
                    }) == keys[order[i] as int]
                    &&& rows[i].seconds == key_seconds(entries, keys[order[i] as int], n, now)
                }
            &&& forall|i: int, j: int|
                0 <= i < j < rows.len() ==> #[trigger] rows[i].seconds >= #[trigger] rows[j].seconds
            &&& forall|i: int, j: int|
                #![trigger order[i], order[j]]
                0 <= i < j < rows.len() && rows[i].seconds == rows[j].seconds ==> order[i] < order[j]
        };
    let f = per_key_seconds(entries, keys, n, now);
    lemma_sum_permuted(f, order);
    assert(rows.map_values(|r: ProjectTotal| r.seconds as int) =~= Seq::new(order.len(), |g: int| f[order[g] as int])) by {
        assert forall|g: int| 0 <= g < rows.len() implies rows[g].seconds == f[order[g] as int] by {
            assert(rows[g].project_id == rows[g].project_id);
        }
    }
    lemma_first_keys_distinct(entries, n);
    assert forall|i: int| 0 <= i < n implies keys.contains(#[trigger] project_key(entries[i])) by {
        lemma_first_keys_cover(entries, n, i);
    }
    lemma_keys_add_up(entries, keys, n, now);
}

/// The lengths of the first `k` entries, running ones up to `now`, each
/// counted as a positive number.
pub open spec fn abs_seconds(entries: Seq<TimeEntry>, k: int, now: int) -> int
    decreases k,
{
    if k <= 0 || k > entries.len() {
        0
    } else {
        let d = entries[k - 1].seconds_until(now);
        abs_seconds(entries, k - 1, now) + if d < 0 { -d } else { d }
    }
}

proof fn lemma_sums_bounded(entries: Seq<TimeEntry>, key: Option<Seq<char>>, k: int, now: int)
    requires
        0 <= k <= entries.len(),
    ensures
        -abs_seconds(entries, k, now) <= key_seconds(entries, key, k, now) <= abs_seconds(
            entries,
            k,
            now,
        ),
        all_completed(entries) ==> -abs_seconds(entries, k, now) <= total_seconds(entries, k)
            <= abs_seconds(entries, k, now),
        -abs_seconds(entries, k, now) <= entries_seconds(entries, k, now) <= abs_seconds(entries, k, now),
        abs_seconds(entries, k, now) >= 0,
    decreases k,
{
    if k > 0 {
        lemma_sums_bounded(entries, key, k - 1, now);
    }
}

/// Counting more entries never lowers the sum of their lengths.
pub proof fn lemma_abs_monotone(entries: Seq<TimeEntry>, j: int, k: int, now: int)
    requires
        0 <= j <= k <= entries.len(),
    ensures
        abs_seconds(entries, j, now) <= abs_seconds(entries, k, now),
    decreases k - j,
{
    if j < k {
        lemma_abs_monotone(entries, j, k - 1, now);
    }
}

/// Whether the entries' lengths, running ones up to `now`, add up to no more
/// than a duration holds. Where they do, every running sum of them fits, per
/// project or all together.
pub fn durations_fit(entries: &[TimeEntry], now: i64) -> (r: bool)
    requires
        forall|i: int| 0 <= i < entries@.len() ==> (#[trigger] entries@[i]).time_interval.wf(),
        timestamp_in_range(now as int),
    ensures
        r == (abs_seconds(entries@, entries@.len() as int, now as int) <= max_delta_seconds()),
        r ==> key_sums_fit(entries@, now as int),
        r ==> entry_sums_fit(entries@, now as int),
        r && all_completed(entries@) ==> sums_fit(entries@),
{
    let mut total: i64 = 0;
    let mut k: usize = 0;
    while k < entries.len()
        invariant
            k <= entries@.len(),
            forall|i: int| 0 <= i < entries@.len() ==> (#[trigger] entries@[i]).time_interval.wf(),
            timestamp_in_range(now as int),
            total == abs_seconds(entries@, k as int, now as int),
            0 <= total <= max_delta_seconds(),
        decreases entries@.len() - k,
    {
        let d = entries[k].duration_at(now);
        let a = if d < 0 { 0 - d } else { d };
        if a > 9223372036854775 - total {
            proof {
                lemma_abs_monotone(entries@, k + 1, entries@.len() as int, now as int);
            }
            return false;
        }
        total = total + a;
        k = k + 1;
    }
    proof {
        assert forall|key: Option<Seq<char>>, j: int|
            0 <= j <= entries@.len() implies -max_delta_seconds() <= #[trigger] key_seconds(
                entries@,
                key,
                j,
                now as int,
            ) <= max_delta_seconds() by {
            lemma_sums_bounded(entries@, key, j, now as int);
            lemma_abs_monotone(entries@, j, entries@.len() as int, now as int);
        }
        assert forall|j: int| 0 <= j <= entries@.len() implies -max_delta_seconds()
            <= #[trigger] entries_seconds(entries@, j, now as int) <= max_delta_seconds() by {
            lemma_sums_bounded(entries@, None, j, now as int);
            lemma_abs_monotone(entries@, j, entries@.len() as int, now as int);
        }
        if all_completed(entries@) {
            assert forall|j: int| 0 <= j <= entries@.len() implies -max_delta_seconds()
                <= #[trigger] total_seconds(entries@, j) <= max_delta_seconds() by {
                lemma_sums_bounded(entries@, None, j, now as int);
                lemma_abs_monotone(entries@, j, entries@.len() as int, now as int);
            }
        }
    }
    true
}

/// Where the entries' lengths add up to no more than a duration holds, every
/// running sum of them per project fits too.
pub proof fn lemma_abs_seconds_bound(entries: Seq<TimeEntry>, key: Option<Seq<char>>, k: int, now: int)
    requires
        0 <= k <= entries.len(),
        abs_seconds(entries, entries.len() as int, now) <= max_delta_seconds(),
    ensures
        -max_delta_seconds() <= key_seconds(entries, key, k, now) <= max_delta_seconds(),
{
    lemma_sums_bounded(entries, key, k, now);
    lemma_abs_monotone(entries, k, entries.len() as int, now);
}

} // verus!
