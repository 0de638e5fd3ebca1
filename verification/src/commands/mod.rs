//! Pieces shared by the subcommands: how ids are shortened for display.

pub mod add;
pub mod auth;
pub mod edit;
pub mod expenses;
pub mod log;
pub mod projects;
pub mod report;
pub mod start;
pub mod submit;

use crate::calendar::{min_day_number, Date};
use crate::models::Project;
use crate::commands::submit::opt_view;
use crate::resolve::MIN_SUFFIX;
use crate::time::{parse_date_gives, parse_date_on, parse_date_succeeds, DateError};
use crate::text::{chars_of, str_is, string_of_range};
use vstd::prelude::*;
use vstd::string::StringSliceAdditionalSpecFns;
use vstd::utf8::{decode_utf8, encode_utf8, is_char_boundary};

verus! {

/// The characters that the bytes `lo..hi` of `s` encode.
pub open spec fn byte_slice(s: Seq<char>, lo: int, hi: int) -> Seq<char> {
    decode_utf8(encode_utf8(s).subrange(lo, hi))
}

pub open spec fn clamp(v: int, lo: int, hi: int) -> int {
    if v < lo { lo } else if v > hi { hi } else { v }
}

/// How many trailing bytes of an id of `n` bytes are shown, and how many of
/// those are highlighted as the part that is enough to address it.
pub open spec fn id_tail_lens(n: int, unique_len: int) -> (int, int) {
    let u = clamp(unique_len, MIN_SUFFIX as int, n);
    let shown = if u > 6 { u } else if n < 6 { n } else { 6 };
    (shown, u)
}

/// Slicing the id at the shown and highlighted parts falls between characters.
pub open spec fn id_tail_splits(id: Seq<char>, unique_len: int) -> bool {
    let n = encode_utf8(id).len() as int;
    let (shown, u) = id_tail_lens(n, unique_len);
    &&& MIN_SUFFIX <= n <= usize::MAX
    &&& is_char_boundary(encode_utf8(id), n - shown)
    &&& is_char_boundary(encode_utf8(id), n - u)
}

/// Short display form of an entry id: the last characters, of which the
/// shortest suffix that uniquely identifies the entry is highlighted.
/// Returns (dimmed part, highlighted part); they are shown after an ellipsis.
pub fn styled_id(id: &str, unique_len: usize) -> (r: (&str, &str))
    requires
        id_tail_splits(id@, unique_len as int),
    ensures
        ({
            let n = encode_utf8(id@).len() as int;
            let (shown, u) = id_tail_lens(n, unique_len as int);
            &&& r.0@ == byte_slice(id@, n - shown, n - u)
            &&& r.1@ == byte_slice(id@, n - u, n)
        }),
{
    let n = id.len();
    let u = if unique_len < MIN_SUFFIX { MIN_SUFFIX } else if unique_len > n { n } else { unique_len };
    let shown = if u > 6 { u } else if n < 6 { n } else { 6 };
    let (_, tail) = id.split_at(n - shown);
    proof {
        vstd::utf8::encode_utf8_valid_utf8(id@);
        vstd::utf8::valid_utf8_split(encode_utf8(id@), (n - shown) as int);
        vstd::utf8::encode_utf8_decode_utf8(tail@);
        lemma_boundary_in_suffix(encode_utf8(id@), (n - shown) as int, (n - u) as int);
    }
    let (dim, bright) = tail.split_at(shown - u);
    proof {
        vstd::utf8::encode_utf8_decode_utf8(dim@);
        vstd::utf8::encode_utf8_decode_utf8(bright@);
        assert(encode_utf8(tail@).subrange(0, shown - u) =~= encode_utf8(id@).subrange(
            n - shown,
            n - u,
        ));
        assert(encode_utf8(tail@).subrange(shown - u, shown as int) =~= encode_utf8(id@).subrange(
            n - u,
            n as int,
        ));
    }
    (dim, bright)
}

/// A character boundary of valid UTF-8 past the start of a suffix that itself
/// starts at a boundary is a boundary of that suffix.
proof fn lemma_boundary_in_suffix(bytes: Seq<u8>, start: int, i: int)
    requires
        vstd::utf8::valid_utf8(bytes),
        0 <= start <= i <= bytes.len(),
        is_char_boundary(bytes, start),
        is_char_boundary(bytes, i),
    ensures
        is_char_boundary(bytes.subrange(start, bytes.len() as int), i - start),
{
    let tail = bytes.subrange(start, bytes.len() as int);
    vstd::utf8::valid_utf8_split(bytes, start);
    if i == bytes.len() {
        vstd::utf8::is_char_boundary_start_end_of_seq(tail);
    } else if i == start {
    } else {
        vstd::utf8::is_char_boundary_iff_not_is_continuation_byte(bytes, i);
        vstd::utf8::is_char_boundary_iff_not_is_continuation_byte(tail, i - start);
    }
}

/// The last six characters of an id (all of it when shorter), for when the
/// length of a unique suffix is not known; shown dimmed after an ellipsis.
pub fn short_id(id: &str) -> (r: String)
    ensures
        r@ == id@.skip(if id@.len() > 6 { id@.len() - 6 } else { 0 }),
{
    let cs = chars_of(id);
    let lo = if cs.len() > 6 { cs.len() - 6 } else { 0 };
    string_of_range(cs.as_slice(), lo, cs.len())
}

/// Why the listing range could not be chosen.
#[derive(Debug)]
pub enum RangeError {
    /// `--to` without `--from`.
    ToRequiresFrom,
    /// Several ranges were asked for at once.
    ChooseOneRange,
    /// `--from` lies after `--to`.
    FromAfterTo,
    /// A date could not be read.
    Date(DateError),
    /// A computed date would leave the calendar's range.
    DateOutOfRange,
}

/// The range a listing shows when no dates are given.
#[derive(Debug, Clone, Copy, PartialEq, Eq, Structural)]
pub enum DefaultRange {
    Today,
    /// Monday through today.
    ThisWeek,
    /// The first of the month through today.
    ThisMonth,
}

/// The first day of the default range, as of `today`.
pub open spec fn default_start(default: DefaultRange, today: Date, d: Date) -> bool {
    match default {
        DefaultRange::Today => d == today,
        DefaultRange::ThisWeek => d.wf() && d.day_number() == today.day_number() - today.weekday(),
        DefaultRange::ThisMonth => d == (Date { day: 1, ..today }),
    }
}

/// What a listing's range is, as of `today`, for the typed `--from` and `--to`.
pub open spec fn range_outcome(
    today: Date,
    default: DefaultRange,
    from: Option<Seq<char>>,
    to: Option<Seq<char>>,
    r: Result<(Date, Date), RangeError>,
) -> bool {
    &&& from is None && to is Some ==> (r matches Err(e) && e is ToRequiresFrom)
    &&& from is None && to is None ==> (r matches Ok((f, t)) && default_start(default, today, f)
        && t == today)
    &&& from is Some ==> ({
        let ok_from = parse_date_succeeds(from->0, today);
        let ok_to = to is None || parse_date_succeeds(to->0, today);
        &&& r is Ok ==> ok_from && ok_to
        &&& r matches Ok((f, t)) ==> f.wf() && t.wf() && parse_date_gives(from->0, today, f) && (
        to matches Some(s) ==> parse_date_gives(s, today, t)) && (to is None ==> t == today)
            && !t.lex_before(f)
        &&& r matches Err(e) ==> (e is FromAfterTo && ok_from && ok_to && forall|f: Date, t: Date|
            f.wf() && parse_date_gives(from->0, today, f) && (to matches Some(s) ==> t.wf()
                && parse_date_gives(s, today, t)) && (to is None ==> t == today) ==> t.lex_before(
            f,
        )) || (e is Date && !(ok_from && ok_to))
    })
}

/// The dates a listing covers, both ends included, as of `today`: `--from`
/// through `--to` (or today), else the default range.
#[verifier::spinoff_prover]
pub fn date_range_on(today: Date, default: DefaultRange, from: Option<&str>, to: Option<&str>) -> (r:
    Result<(Date, Date), RangeError>)
    requires
        today.wf(),
        from is None && to is None && default == DefaultRange::ThisWeek ==> today.day_number()
            - today.weekday() >= min_day_number(),
    ensures
        range_outcome(today, default, opt_view(from), opt_view(to), r),
{
    let (f, t) = match from {
        Some(fs) => {
            let f = match parse_date_on(fs, today) {
                Ok(d) => d,
                Err(e) => return Err(RangeError::Date(e)),
            };
            let t = match to {
                Some(s) => match parse_date_on(s, today) {
                    Ok(d) => d,
                    Err(e) => return Err(RangeError::Date(e)),
                },
                None => today,
            };
            (f, t)
        },
        None => {
            if to.is_some() {
                return Err(RangeError::ToRequiresFrom);
            }
            match default {
                DefaultRange::Today => (today, today),
                DefaultRange::ThisWeek => {
                    let back = today.num_days_from_monday();
                    match today.checked_sub_days(back as u64) {
                        Some(d) => (d, today),
                        None => return Err(RangeError::DateOutOfRange),
                    }
                },
                DefaultRange::ThisMonth => match today.with_day(1) {
                    Some(d) => (d, today),
                    None => return Err(RangeError::DateOutOfRange),
                },
            }
        },
    };
    if t.is_before(&f) {
        proof {
            if from is Some {
                assert forall|f2: Date, t2: Date|
                    f2.wf() && parse_date_gives(from->0@, today, f2) && (to matches Some(s)
                        ==> t2.wf() && parse_date_gives(s@, today, t2)) && (to is None ==> t2
                        == today) implies t2.lex_before(f2) by {
                    crate::calendar::lemma_day_number_injective(f2, f);
                    if to is Some {
                        crate::calendar::lemma_day_number_injective(t2, t);
                    }
                }
            } else {
                assert(!today.lex_before(f)) by {
                    if default == DefaultRange::ThisWeek {
                        if today.lex_before(f) {
                            crate::calendar::lemma_day_number_monotone(today, f);
                        }
                    }
                }
            }
        }
        return Err(RangeError::FromAfterTo);
    }
    Ok((f, t))
}


/// Projects by id, as a list of them gives them: where two share an id, the
/// later one wins.
pub open spec fn projects_by_id(ps: Seq<Project>) -> Map<Seq<char>, Project>
    decreases ps.len(),
{
    if ps.len() == 0 {
        Map::empty()
    } else {
        projects_by_id(ps.drop_last()).insert(ps.last().id@, ps.last())
    }
}

pub open spec fn ids_distinct(ps: Seq<Project>) -> bool {
    forall|i: int, j: int| 0 <= i < j < ps.len() ==> (#[trigger] ps[i]).id@ != (#[trigger] ps[j]).id@
}

/// Where no two projects share an id, each id maps to its own project, and
/// only those ids are mapped.
pub proof fn lemma_projects_by_distinct_id(ps: Seq<Project>)
    requires
        ids_distinct(ps),
    ensures
        forall|k: Seq<char>|
            #[trigger] projects_by_id(ps).contains_key(k) <==> exists|i: int|
                0 <= i < ps.len() && (#[trigger] ps[i]).id@ == k,
        forall|i: int| 0 <= i < ps.len() ==> #[trigger] projects_by_id(ps)[ps[i].id@] == ps[i],
    decreases ps.len(),
{
    if ps.len() > 0 {
        let t = ps.drop_last();
        assert(ids_distinct(t)) by {
            assert forall|i: int, j: int| 0 <= i < j < t.len() implies (#[trigger] t[i]).id@
                != (#[trigger] t[j]).id@ by {
                assert(t[i] == ps[i] && t[j] == ps[j]);
            }
        }
        lemma_projects_by_distinct_id(t);
        let m = projects_by_id(ps);
        let n = ps.len() - 1;
        assert(m == projects_by_id(t).insert(ps[n].id@, ps[n]));
        assert forall|k: Seq<char>| #[trigger] m.contains_key(k) <==> exists|i: int|
            0 <= i < ps.len() && (#[trigger] ps[i]).id@ == k by {
            if k == ps[n].id@ {
                assert(ps[n].id@ == k);
            } else {
                if projects_by_id(t).contains_key(k) {
                    let i = choose|i: int| 0 <= i < t.len() && (#[trigger] t[i]).id@ == k;
                    assert(ps[i] == t[i]);
                }
                if exists|i: int| 0 <= i < ps.len() && (#[trigger] ps[i]).id@ == k {
                    let i = choose|i: int| 0 <= i < ps.len() && (#[trigger] ps[i]).id@ == k;
                    assert(t[i] == ps[i]);
                    assert(projects_by_id(t).contains_key(t[i].id@));
                }
            }
        }
        assert forall|i: int| 0 <= i < ps.len() implies #[trigger] m[ps[i].id@] == ps[i] by {
            if i < n {
                assert(t[i] == ps[i]);
                assert(ps[i].id@ != ps[n].id@);
                assert(projects_by_id(t)[t[i].id@] == t[i]);
            }
        }
    }
}

proof fn lemma_replace_same_id(ps: Seq<Project>, i: int, p: Project)
    requires
        ids_distinct(ps),
        0 <= i < ps.len(),
        ps[i].id@ == p.id@,
    ensures
        ids_distinct(ps.update(i, p)),
        projects_by_id(ps.update(i, p)) == projects_by_id(ps).insert(p.id@, p),
{
    let u = ps.update(i, p);
    assert(ids_distinct(u)) by {
        assert forall|a: int, b: int| 0 <= a < b < u.len() implies (#[trigger] u[a]).id@ != (
        #[trigger] u[b]).id@ by {
            assert(ps[a].id@ != ps[b].id@);
        }
    }
    lemma_projects_by_distinct_id(ps);
    lemma_projects_by_distinct_id(u);
    let m1 = projects_by_id(u);
    let m2 = projects_by_id(ps).insert(p.id@, p);
    assert forall|k: Seq<char>| m1.contains_key(k) <==> m2.contains_key(k) by {
        if m1.contains_key(k) {
            let j = choose|j: int| 0 <= j < u.len() && (#[trigger] u[j]).id@ == k;
            if j != i {
                assert(ps[j] == u[j]);
            }
        }
        if m2.contains_key(k) && k != p.id@ {
            let j = choose|j: int| 0 <= j < ps.len() && (#[trigger] ps[j]).id@ == k;
            assert(u[j] == ps[j]);
        }
        if k == p.id@ {
            assert(u[i] == p);
        }
    }
    assert forall|k: Seq<char>| m1.contains_key(k) implies m1[k] == m2[k] by {
        let j = choose|j: int| 0 <= j < u.len() && (#[trigger] u[j]).id@ == k;
        assert(m1[u[j].id@] == u[j]);
        if j != i {
            assert(ps[j] == u[j]);
            assert(m2[k] == ps[j]);
        }
    }
    assert(m1 =~= m2);
}

/// The projects of a workspace, found by id.
pub struct ProjectMap {
    items: Vec<Project>,
}

impl ProjectMap {
    #[verifier::type_invariant]
    spec fn distinct(&self) -> bool {
        ids_distinct(self.items@)
    }

    /// The project listed under `id`, if any.
    pub fn get(&self, id: &str) -> (r: Option<&Project>)
        ensures
            match r {
                Some(p) => self@.contains_key(id@) && *p == self@[id@],
                None => !self@.contains_key(id@),
            },
    {
        let mut i: usize = 0;
        while i < self.items.len()
            invariant
                i <= self.items@.len(),
                forall|j: int| 0 <= j < i ==> (#[trigger] self.items@[j]).id@ != id@,
            decreases self.items@.len() - i,
        {
            if str_is(self.items[i].id.as_str(), id) {
                proof {
                    use_type_invariant(self);
                    lemma_projects_by_distinct_id(self.items@);
                    let ghost ps = self.items@;
                    assert(ps[i as int].id@ == id@);
                    assert(projects_by_id(ps)[ps[i as int].id@] == ps[i as int]);
                    assert(projects_by_id(ps).contains_key(ps[i as int].id@));
                }
                return Some(&self.items[i]);
            }
            i = i + 1;
        }
        proof {
            use_type_invariant(self);
            lemma_projects_by_distinct_id(self.items@);
        }
        None
    }
}

impl View for ProjectMap {
    type V = Map<Seq<char>, Project>;

    closed spec fn view(&self) -> Map<Seq<char>, Project> {
        projects_by_id(self.items@)
    }
}

/// The projects of a workspace by id (fetched by the caller): where two share
/// an id, the later one wins.
pub fn project_map(projects: Vec<Project>) -> (r: ProjectMap)
    ensures
        r@ == projects_by_id(projects@),
{
    let mut items: Vec<Project> = Vec::new();
    let mut k: usize = 0;
    while k < projects.len()
        invariant
            k <= projects@.len(),
            ids_distinct(items@),
            projects_by_id(items@) == projects_by_id(projects@.take(k as int)),
        decreases projects@.len() - k,
    {
        let p = projects[k].clone();
        let mut j: usize = 0;
        while j < items.len() && !str_is(items[j].id.as_str(), p.id.as_str())
            invariant
                j <= items@.len(),
                forall|h: int| 0 <= h < j ==> (#[trigger] items@[h]).id@ != p.id@,
            decreases items@.len() - j,
        {
            j = j + 1;
        }
        proof {
            assert(projects@.take(k + 1).drop_last() == projects@.take(k as int));
            assert(projects@.take(k + 1).last() == p);
        }
        if j < items.len() {
            proof {
                lemma_replace_same_id(items@, j as int, p);
            }
            items.set(j, p);
        } else {
            proof {
                let ghost old_items = items@;
                assert(old_items.push(p).drop_last() == old_items);
                assert(ids_distinct(old_items.push(p))) by {
                    let u = old_items.push(p);
                    assert forall|a: int, b: int| 0 <= a < b < u.len() implies (#[trigger] u[a]).id@
                        != (#[trigger] u[b]).id@ by {
                        if b == u.len() - 1 {
                            assert(u[a] == old_items[a]);
                        } else {
                            assert(u[a] == old_items[a] && u[b] == old_items[b]);
                        }
                    }
                }
            }
            items.push(p);
        }
        k = k + 1;
    }
    proof {
        assert(projects@.take(projects@.len() as int) == projects@);
    }
    ProjectMap { items }
}

} // verus!
