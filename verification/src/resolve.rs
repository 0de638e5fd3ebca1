//! Finding a project, task, workspace or category from what the user typed:
//! an exact 24-character id, a case-insensitive exact name, or a
//! case-insensitive name fragment that matches exactly one item.

use crate::text::{all_hex_digits, chars_eq, chars_of, contains_chars, contains_seq, ends_with_chars, ends_with_seq, is_hex_digit, lowercase, to_lowercase};
use crate::models::{timestamp_in_range, Project, Task};
use vstd::prelude::*;

verus! {

/// The shortest id suffix that is accepted in place of a full id.
pub const MIN_SUFFIX: usize = 3;

/// How far back an id suffix is looked up among the entries, in days.
pub const SUFFIX_LOOKBACK_DAYS: i64 = 90;

/// The instants between which entries are searched for an id suffix at
/// `now`: the last 90 days.
pub fn suffix_search_range(now: i64) -> (r: (i64, i64))
    requires
        timestamp_in_range(now as int),
    ensures
        r.0 == now - SUFFIX_LOOKBACK_DAYS * 86400,
        r.1 == now,
{
    (now - SUFFIX_LOOKBACK_DAYS * 86400, now)
}

/// Items that carry an id and a display name.
pub trait Named {
    spec fn id_view(&self) -> Seq<char>;

    spec fn name_view(&self) -> Seq<char>;

    fn id_str(&self) -> (r: &str)
        ensures
            r@ == self.id_view(),
    ;

    fn name_str(&self) -> (r: &str)
        ensures
            r@ == self.name_view(),
    ;
}

/// A Clockify id: 24 hexadecimal digits.
pub open spec fn is_id_like(s: Seq<char>) -> bool {
    s.len() == 24 && forall|i: int| 0 <= i < s.len() ==> is_hex_digit(#[trigger] s[i])
}

/// Whether `s` has the shape of a Clockify id.
pub fn looks_like_id(s: &str) -> (r: bool)
    ensures
        r == is_id_like(s@),
{
    let cs = chars_of(s);
    cs.len() == 24 && all_hex_digits(cs.as_slice())
}

/// Why no single item was picked.
#[derive(Debug, Clone, PartialEq, Eq)]
pub enum PickError {
    /// No item's name contains the needle.
    NoMatch,
    /// Several names contain the needle; their names, in list order.
    Ambiguous(Vec<String>),
}

pub open spec fn id_matches<T: Named>(items: Seq<T>, needle: Seq<char>, i: int) -> bool {
    items[i].id_view() == needle
}

pub open spec fn name_equals<T: Named>(items: Seq<T>, needle: Seq<char>, i: int) -> bool {
    lowercase(items[i].name_view()) == lowercase(needle)
}

pub open spec fn name_contains<T: Named>(items: Seq<T>, needle: Seq<char>, i: int) -> bool {
    contains_seq(lowercase(items[i].name_view()), lowercase(needle))
}

/// Indices among the first `k` items whose name contains the needle, in order.
pub open spec fn containing<T: Named>(items: Seq<T>, needle: Seq<char>, k: int) -> Seq<int>
    decreases k,
{
    if k <= 0 {
        Seq::empty()
    } else if name_contains(items, needle, k - 1) {
        containing(items, needle, k - 1).push(k - 1)
    } else {
        containing(items, needle, k - 1)
    }
}

/// Some item has `needle` as its id.
pub open spec fn some_id_match<T: Named>(items: Seq<T>, needle: Seq<char>) -> bool {
    exists|i: int| 0 <= i < items.len() && #[trigger] id_matches(items, needle, i)
}

/// Some item's name equals `needle`, ignoring case.
pub open spec fn some_name_match<T: Named>(items: Seq<T>, needle: Seq<char>) -> bool {
    exists|i: int| 0 <= i < items.len() && #[trigger] name_equals(items, needle, i)
}

/// `i` is the first item with `needle` as its id.
pub open spec fn first_id_match<T: Named>(items: Seq<T>, needle: Seq<char>, i: int) -> bool {
    &&& 0 <= i < items.len()
    &&& id_matches(items, needle, i)
    &&& forall|j: int| 0 <= j < i ==> !#[trigger] id_matches(items, needle, j)
}

/// `i` is the first item whose name equals `needle`, ignoring case.
pub open spec fn first_name_match<T: Named>(items: Seq<T>, needle: Seq<char>, i: int) -> bool {
    &&& 0 <= i < items.len()
    &&& name_equals(items, needle, i)
    &&& forall|j: int| 0 <= j < i ==> !#[trigger] name_equals(items, needle, j)
}

/// What picking `needle` among `items` yields: the index of the chosen item,
/// or why none was chosen.
pub open spec fn pick_outcome<T: Named>(items: Seq<T>, needle: Seq<char>, r: Result<usize, PickError>) -> bool {
    let found = containing(items, needle, items.len() as int);
    if is_id_like(needle) && some_id_match(items, needle) {
        r matches Ok(i) && first_id_match(items, needle, i as int)
    } else if some_name_match(items, needle) {
        r matches Ok(i) && first_name_match(items, needle, i as int)
    } else if found.len() == 1 {
        r == Ok::<usize, PickError>(found[0] as usize)
    } else if found.len() == 0 {
        r == Err::<usize, PickError>(PickError::NoMatch)
    } else {
        r matches Err(PickError::Ambiguous(names)) && names@.len() == found.len() && forall|k: int|
            0 <= k < found.len() ==> (#[trigger] names@[k])@ == items[found[k]].name_view()
    }
}

fn lowercase_chars(s: &str) -> (r: Vec<char>)
    ensures
        r@ == lowercase(s@),
{
    let l = to_lowercase(s);
    chars_of(l.as_str())
}

/// Picks one of `items` for `needle`: an item whose id is `needle` when
/// `needle` looks like an id, else the first item whose name equals `needle`
/// ignoring case, else the only item whose name contains it ignoring case.
#[verifier::spinoff_prover]
pub fn pick<T: Named>(needle: &str, items: &[T]) -> (r: Result<usize, PickError>)
    ensures
        pick_outcome(items@, needle@, r),
        r matches Ok(i) ==> i < items@.len(),
{
    if looks_like_id(needle) {
        let nd = chars_of(needle);
        let mut i: usize = 0;
        while i < items.len()
            invariant
                i <= items@.len(),
                nd@ == needle@,
                is_id_like(needle@),
                forall|j: int| 0 <= j < i ==> !#[trigger] id_matches(items@, needle@, j),
            decreases items@.len() - i,
        {
            let id = chars_of(items[i].id_str());
            if chars_eq(id.as_slice(), nd.as_slice()) {
                assert(id_matches(items@, needle@, i as int));
                assert(some_id_match(items@, needle@));
                assert(first_id_match(items@, needle@, i as int));
                return Ok(i);
            }
            i = i + 1;
        }
        assert(!some_id_match(items@, needle@));
    }
    let lower = lowercase_chars(needle);
    let mut i: usize = 0;
    while i < items.len()
        invariant
            i <= items@.len(),
            lower@ == lowercase(needle@),
            forall|j: int| 0 <= j < i ==> !#[trigger] name_equals(items@, needle@, j),
            !(is_id_like(needle@) && some_id_match(items@, needle@)),
        decreases items@.len() - i,
    {
        let name = lowercase_chars(items[i].name_str());
        if chars_eq(name.as_slice(), lower.as_slice()) {
            assert(name_equals(items@, needle@, i as int));
            return Ok(i);
        }
        i = i + 1;
    }
    assert(!some_name_match(items@, needle@));
    let mut found: Vec<usize> = Vec::new();
    let mut k: usize = 0;
    while k < items.len()
        invariant
            k <= items@.len(),
            lower@ == lowercase(needle@),
            found@.len() == containing(items@, needle@, k as int).len(),
            forall|j: int| 0 <= j < found@.len() ==> found@[j] as int == containing(items@, needle@, k as int)[j],
            forall|j: int| 0 <= j < found@.len() ==> found@[j] < k,
        decreases items@.len() - k,
    {
        let name = lowercase_chars(items[k].name_str());
        if contains_chars(name.as_slice(), lower.as_slice()) {
            found.push(k);
        }
        k = k + 1;
    }
    if found.len() == 1 {
        Ok(found[0])
    } else if found.len() == 0 {
        Err(PickError::NoMatch)
    } else {
        let mut names: Vec<String> = Vec::new();
        let mut m: usize = 0;
        while m < found.len()
            invariant
                m <= found@.len(),
                found@.len() == containing(items@, needle@, items@.len() as int).len(),
                forall|j: int| 0 <= j < found@.len() ==> found@[j] as int == containing(items@, needle@, items@.len() as int)[j],
                forall|j: int| 0 <= j < found@.len() ==> found@[j] < items@.len(),
                names@.len() == m,
                forall|j: int| 0 <= j < m ==> (#[trigger] names@[j])@ == items@[found@[j] as int].name_view(),
            decreases found@.len() - m,
        {
            let name = items[found[m]].name_str().to_owned();
            names.push(name);
            m = m + 1;
        }
        Err(PickError::Ambiguous(names))
    }
}


/// The projects that are not archived, in order.
pub open spec fn active_projects(projects: Seq<Project>, k: int) -> Seq<Project>
    decreases k,
{
    if k <= 0 {
        Seq::empty()
    } else if !projects[k - 1].archived {
        active_projects(projects, k - 1).push(projects[k - 1])
    } else {
        active_projects(projects, k - 1)
    }
}

/// The outcome of picking among `items`, carried over to the picked item.
pub open spec fn picked<T: Named>(items: Seq<T>, needle: Seq<char>, r: Result<T, PickError>) -> bool {
    exists|o: Result<usize, PickError>|
        pick_outcome(items, needle, o) && match o {
            Ok(i) => 0 <= i < items.len() && r == Ok::<T, PickError>(items[i as int]),
            Err(e) => r == Err::<T, PickError>(e),
        }
}

/// The active (not archived) project that `needle` names.
pub fn project(projects: &[Project], needle: &str) -> (r: Result<Project, PickError>)
    ensures
        picked(active_projects(projects@, projects@.len() as int), needle@, r),
{
    let mut active: Vec<Project> = Vec::new();
    let mut i: usize = 0;
    while i < projects.len()
        invariant
            i <= projects@.len(),
            active@ == active_projects(projects@, i as int),
        decreases projects@.len() - i,
    {
        if !projects[i].archived {
            active.push(projects[i].clone());
        }
        i = i + 1;
    }
    let o = pick(needle, active.as_slice());
    match o {
        Ok(k) => Ok(active[k].clone()),
        Err(e) => Err(e),
    }
}

/// The task of a project that `needle` names.
pub fn task(tasks: &[Task], needle: &str) -> (r: Result<Task, PickError>)
    ensures
        picked(tasks@, needle@, r),
{
    match pick(needle, tasks) {
        Ok(k) => Ok(tasks[k].clone()),
        Err(e) => Err(e),
    }
}

/// The last `n` characters of `s`.
pub open spec fn tail(s: Seq<char>, n: int) -> Seq<char> {
    s.subrange(s.len() - n, s.len() as int)
}

/// The last `n` characters of `ids[i]` end no other of `ids`.
pub open spec fn suffix_unique(ids: Seq<Seq<char>>, i: int, n: int) -> bool {
    forall|j: int| 0 <= j < ids.len() && j != i ==> !ends_with_seq(#[trigger] ids[j], tail(ids[i], n))
}

/// How many trailing characters of `ids[i]` single it out: the fewest, at
/// least `MIN_SUFFIX`, that no other id ends with; the whole id where none do.
pub open spec fn unique_suffix_len(ids: Seq<Seq<char>>, i: int, n: int) -> bool {
    let len = ids[i].len();
    if len <= MIN_SUFFIX {
        n == len
    } else {
        &&& MIN_SUFFIX <= n <= len
        &&& (suffix_unique(ids, i, n) || n == len)
        &&& forall|m: int| MIN_SUFFIX <= m < n ==> !suffix_unique(ids, i, m)
    }
}

fn tail_chars(v: &[char], n: usize) -> (r: Vec<char>)
    requires
        n <= v@.len(),
    ensures
        r@ == tail(v@, n as int),
{
    let mut out: Vec<char> = Vec::new();
    let mut k: usize = v.len() - n;
    while k < v.len()
        invariant
            n <= v@.len(),
            v@.len() - n <= k <= v@.len(),
            out@ == v@.subrange(v@.len() - n, k as int),
        decreases v@.len() - k,
    {
        proof {
            assert(v@.subrange(v@.len() - n, k + 1) == v@.subrange(v@.len() - n, k as int).push(
                v@[k as int],
            ));
        }
        out.push(v[k]);
        k = k + 1;
    }
    out
}

/// For each id, the length of its shortest unique suffix (see
/// `unique_suffix_len`).
#[verifier::spinoff_prover]
pub fn unique_suffix_lens(ids: &[String]) -> (r: Vec<usize>)
    ensures
        r@.len() == ids@.len(),
        forall|i: int|
            0 <= i < ids@.len() ==> unique_suffix_len(
                ids@.map_values(|s: String| s@),
                i,
                #[trigger] r@[i] as int,
            ),
{
    let ghost view = ids@.map_values(|s: String| s@);
    let mut all: Vec<Vec<char>> = Vec::new();
    let mut k: usize = 0;
    while k < ids.len()
        invariant
            k <= ids@.len(),
            view == ids@.map_values(|s: String| s@),
            all@.len() == k,
            forall|j: int| 0 <= j < k ==> (#[trigger] all@[j])@ == view[j],
        decreases ids@.len() - k,
    {
        all.push(chars_of(ids[k].as_str()));
        k = k + 1;
    }
    let mut out: Vec<usize> = Vec::new();
    let mut i: usize = 0;
    while i < all.len()
        invariant
            i <= all@.len(),
            all@.len() == ids@.len(),
            view == ids@.map_values(|s: String| s@),
            forall|j: int| 0 <= j < all@.len() ==> (#[trigger] all@[j])@ == view[j],
            out@.len() == i,
            forall|j: int| 0 <= j < i ==> unique_suffix_len(view, j, #[trigger] out@[j] as int),
        decreases all@.len() - i,
    {
        let id = &all[i];
        let len = id.len();
        if len <= MIN_SUFFIX {
            out.push(len);
        } else {
            let mut n: usize = MIN_SUFFIX;
            let mut found = false;
            while n < len && !found
                invariant
                    i < all@.len(),
                    id@ == all@[i as int]@,
                    len == all@[i as int]@.len(),
                    all@[i as int]@ == view[i as int],
                    forall|j: int| 0 <= j < all@.len() ==> (#[trigger] all@[j])@ == view[j],
                    all@.len() == view.len(),
                    MIN_SUFFIX <= n <= len,
                    found ==> suffix_unique(view, i as int, n as int),
                    forall|m: int| MIN_SUFFIX <= m < n ==> !suffix_unique(view, i as int, m),
                decreases len - n + (if found { 0int } else { 1int }),
            {
                let t_vec = tail_chars(id.as_slice(), n);
                let t = t_vec.as_slice();
                let ghost tv = tail(view[i as int], n as int);
                let mut j: usize = 0;
                let mut clash = false;
                while j < all.len() && !clash
                    invariant
                        j <= all@.len(),
                        t@ == tv,
                        forall|h: int| 0 <= h < all@.len() ==> (#[trigger] all@[h])@ == view[h],
                        all@.len() == view.len(),
                        !clash ==> forall|h: int|
                            0 <= h < j && h != i ==> !ends_with_seq(#[trigger] view[h], tv),
                        clash ==> exists|h: int|
                            0 <= h < view.len() && h != i && ends_with_seq(#[trigger] view[h], tv),
                    decreases all@.len() - j + (if clash { 0int } else { 1int }),
                {
                    if j != i && ends_with_chars(all[j].as_slice(), t) {
                        clash = true;
                    } else {
                        j = j + 1;
                    }
                }
                if clash {
                    n = n + 1;
                } else {
                    found = true;
                }
            }
            out.push(n);
        }
        i = i + 1;
    }
    out
}

/// What a time-entry reference names.
#[derive(Debug, Clone, PartialEq, Eq)]
pub enum EntryRef {
    /// `@`: the running timer.
    Running,
    /// A full 24-character entry id.
    FullId(String),
    /// A hexadecimal suffix of an entry id, lowercase.
    Suffix(String),
    /// Neither: empty, or not hexadecimal.
    Invalid,
}

/// Reads a time-entry reference: `@` for the running timer (surrounding
/// whitespace ignored), else an id or id suffix as an expense reference is
/// read.
pub fn entry_ref(reference: &str) -> (r: EntryRef)
    ensures
        ({
            let t = crate::text::trimmed(reference@);
            let needle = lowercase(t);
            if t == seq!['@'] {
                r == EntryRef::Running
            } else if is_id_like(needle) {
                r matches EntryRef::FullId(id) && id@ == needle
            } else if needle.len() == 0 || !(forall|i: int|
                0 <= i < needle.len() ==> is_hex_digit(#[trigger] needle[i])) {
                r == EntryRef::Invalid
            } else {
                r matches EntryRef::Suffix(s) && s@ == needle
            }
        }),
{
    let t = crate::text::trim(reference);
    let cs = chars_of(t);
    if cs.len() == 1 && cs[0] == '@' {
        proof {
            assert(t@ == seq!['@']);
        }
        return EntryRef::Running;
    }
    proof {
        assert(t@ != seq!['@']);
    }
    match crate::commands::expenses::resolve_expense(reference) {
        crate::commands::expenses::ExpenseRef::FullId(id) => EntryRef::FullId(id),
        crate::commands::expenses::ExpenseRef::Suffix(s) => EntryRef::Suffix(s),
        crate::commands::expenses::ExpenseRef::Invalid => EntryRef::Invalid,
    }
}

proof fn lemma_only_one_ends_with(ids: Seq<String>, i: int, n: int, k: int)
    requires
        0 <= i < ids.len(),
        0 <= n <= ids[i]@.len(),
        suffix_unique(ids.map_values(|s: String| s@), i, n),
        0 <= k <= ids.len(),
    ensures
        crate::commands::expenses::ending_with(ids, tail(ids[i]@, n), k) == (if i < k {
            seq![i]
        } else {
            Seq::empty()
        }),
    decreases k,
{
    let view = ids.map_values(|s: String| s@);
    let t = tail(ids[i]@, n);
    if k > 0 {
        lemma_only_one_ends_with(ids, i, n, k - 1);
        if k - 1 == i {
            assert(ids[i]@.subrange(ids[i]@.len() - t.len(), ids[i]@.len() as int) == t);
            assert(ends_with_seq(ids[k - 1]@, t));
        } else {
            assert(view[k - 1] == ids[k - 1]@);
            assert(!ends_with_seq(view[k - 1], t));
        }
    }
}

/// Typing just the unique suffix of an id is enough to address it: where the
/// last `n` characters of `ids[i]` end no other id, the ids ending with them
/// are `ids[i]` alone, so matching that suffix picks `i`.
pub proof fn lemma_unique_suffix_addresses(ids: Seq<String>, i: int, n: int)
    requires
        0 <= i < ids.len(),
        0 <= n <= ids[i]@.len(),
        suffix_unique(ids.map_values(|s: String| s@), i, n),
    ensures
        crate::commands::expenses::ending_with(ids, tail(ids[i]@, n), ids.len() as int) == seq![i],
{
    lemma_only_one_ends_with(ids, i, n, ids.len() as int);
}

} // verus!
