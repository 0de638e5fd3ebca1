//! Listing projects: which are shown, in which order, grouped by client.

use crate::models::Project;
use crate::sort::{is_permutation, lex_le, sorts_stably, stable_sort, FlagThenText, Ordered};
use crate::text::{chars_eq, chars_of, lowercase, to_lowercase};
use vstd::prelude::*;

verus! {

/// The projects listed: all of them with `--all`, else the active ones, in order.
pub open spec fn listed(projects: Seq<Project>, all: bool, k: int) -> Seq<Project>
    decreases k,
{
    if k <= 0 {
        Seq::empty()
    } else if all || !projects[k - 1].archived {
        listed(projects, all, k - 1).push(projects[k - 1])
    } else {
        listed(projects, all, k - 1)
    }
}

/// Keeps the projects to list: every one with `all`, else those not archived.
pub fn retain_listed(projects: &[Project], all: bool) -> (r: Vec<Project>)
    ensures
        r@ == listed(projects@, all, projects@.len() as int),
{
    let mut out: Vec<Project> = Vec::new();
    let mut i: usize = 0;
    while i < projects.len()
        invariant
            i <= projects@.len(),
            out@ == listed(projects@, all, i as int),
        decreases projects@.len() - i,
    {
        if all || !projects[i].archived {
            out.push(projects[i].clone());
        }
        i = i + 1;
    }
    out
}

/// `r` holds `items` in the order `order`.
pub open spec fn reordered(items: Seq<Project>, order: Seq<usize>, r: Seq<Project>) -> bool {
    &&& is_permutation(order, items.len() as int)
    &&& r.len() == items.len()
    &&& forall|i: int| 0 <= i < r.len() ==> #[trigger] r[i] == items[order[i] as int]
}

/// Projects sorted by name ignoring case; equal names keep their order.
#[verifier::spinoff_prover]
pub fn sort_by_name(projects: &[Project]) -> (r: Vec<Project>)
    ensures
        exists|order: Seq<usize>|
            {
                &&& reordered(projects@, order, r@)
                &&& forall|i: int, j: int|
                    0 <= i < j < r@.len() ==> lex_le(
                        lowercase((#[trigger] r@[i]).name@),
                        lowercase((#[trigger] r@[j]).name@),
                    )
                &&& forall|i: int, j: int|
                    #![trigger order[i], order[j]]
                    0 <= i < j < r@.len() && lex_le(lowercase(r@[j].name@), lowercase(r@[i].name@))
                        ==> order[i] < order[j]
            },
{
    let mut keys: Vec<FlagThenText> = Vec::new();
    let mut i: usize = 0;
    while i < projects.len()
        invariant
            i <= projects@.len(),
            keys@.len() == i,
            forall|j: int|
                0 <= j < i ==> !(#[trigger] keys@[j]).flag && keys@[j].text@ == lowercase(
                    projects@[j].name@,
                ),
        decreases projects@.len() - i,
    {
        let l = to_lowercase(projects[i].name.as_str());
        keys.push(FlagThenText { flag: false, text: chars_of(l.as_str()) });
        i = i + 1;
    }
    let order = stable_sort(keys.as_slice());
    let mut out: Vec<Project> = Vec::new();
    let mut m: usize = 0;
    while m < order.len()
        invariant
            m <= order@.len(),
            is_permutation(order@, projects@.len() as int),
            out@.len() == m,
            forall|j: int| 0 <= j < m ==> #[trigger] out@[j] == projects@[order@[j] as int],
        decreases order@.len() - m,
    {
        out.push(projects[order[m]].clone());
        m = m + 1;
    }
    proof {
        let o = order@;
        assert forall|i: int, j: int| 0 <= i < j < out@.len() implies lex_le(
            lowercase((#[trigger] out@[i]).name@),
            lowercase((#[trigger] out@[j]).name@),
        ) by {
            assert(keys@[o[i] as int].le(&keys@[o[j] as int]));
        }
        assert forall|i: int, j: int|
            #![trigger o[i], o[j]]
            0 <= i < j < out@.len() && lex_le(lowercase(out@[j].name@), lowercase(out@[i].name@))
                implies o[i] < o[j] by {
            assert(keys@[o[j] as int].le(&keys@[o[i] as int]));
        }
        assert(reordered(projects@, o, out@));
    }
    out
}

/// The heading of projects without a client.
pub open spec fn no_client() -> Seq<char> {
    "(no client)"@
}

/// The client a project is listed under.
pub open spec fn client_key(p: Project) -> Seq<char> {
    match p.client_name {
        Some(c) => if c@.len() > 0 { c@ } else { no_client() },
        None => no_client(),
    }
}

/// The distinct clients of the first `k` projects, in order of first appearance.
pub open spec fn first_clients(projects: Seq<Project>, k: int) -> Seq<Seq<char>>
    decreases k,
{
    if k <= 0 {
        Seq::empty()
    } else if first_clients(projects, k - 1).contains(client_key(projects[k - 1])) {
        first_clients(projects, k - 1)
    } else {
        first_clients(projects, k - 1).push(client_key(projects[k - 1]))
    }
}

/// The projects among the first `k` listed under `client`, in order.
pub open spec fn members(projects: Seq<Project>, client: Seq<char>, k: int) -> Seq<Project>
    decreases k,
{
    if k <= 0 {
        Seq::empty()
    } else if client_key(projects[k - 1]) == client {
        members(projects, client, k - 1).push(projects[k - 1])
    } else {
        members(projects, client, k - 1)
    }
}

/// The order of client headings: named clients first, by name ignoring case.
pub open spec fn client_le(a: Seq<char>, b: Seq<char>) -> bool {
    let fa = a == no_client();
    let fb = b == no_client();
    (!fa && fb) || (fa == fb && lex_le(lowercase(a), lowercase(b)))
}

/// Projects listed under one client heading.
#[derive(Debug, Clone)]
pub struct ClientGroup {
    pub client: String,
    pub projects: Vec<Project>,
}

proof fn lemma_first_clients_distinct(projects: Seq<Project>, k: int)
    ensures
        forall|i: int, j: int|
            0 <= i < j < first_clients(projects, k).len() ==> #[trigger] first_clients(projects, k)[i]
                != #[trigger] first_clients(projects, k)[j],
    decreases k,
{
    if k > 0 {
        lemma_first_clients_distinct(projects, k - 1);
        let prev = first_clients(projects, k - 1);
        let cur = first_clients(projects, k);
        if !prev.contains(client_key(projects[k - 1])) {
            assert forall|i: int, j: int| 0 <= i < j < cur.len() implies #[trigger] cur[i] != #[trigger] cur[j] by {
                if j == prev.len() {
                    assert(cur[i] == prev[i]);
                    if cur[i] == cur[j] {
                        assert(prev.contains(client_key(projects[k - 1])));
                    }
                } else {
                    assert(cur[i] == prev[i] && cur[j] == prev[j]);
                }
            }
        }
    }
}

proof fn lemma_absent_client_empty(projects: Seq<Project>, client: Seq<char>, k: int)
    requires
        0 <= k <= projects.len(),
        !first_clients(projects, k).contains(client),
    ensures
        members(projects, client, k) == Seq::<Project>::empty(),
    decreases k,
{
    if k > 0 {
        let prev = first_clients(projects, k - 1);
        assert(!prev.contains(client)) by {
            if prev.contains(client) {
                let h = choose|h: int| 0 <= h < prev.len() && #[trigger] prev[h] == client;
                if !prev.contains(client_key(projects[k - 1])) {
                    assert(first_clients(projects, k)[h] == client);
                }
            }
        }
        if client_key(projects[k - 1]) == client {
            assert(first_clients(projects, k).contains(client)) by {
                if !prev.contains(client) {
                    assert(first_clients(projects, k)[prev.len() as int] == client);
                }
            }
        }
        lemma_absent_client_empty(projects, client, k - 1);
    }
}

fn client_key_exec(p: &Project) -> (r: String)
    ensures
        r@ == client_key(*p),
{
    match &p.client_name {
        Some(c) => if c.as_str().is_empty() { "(no client)".to_owned() } else { c.clone() },
        None => "(no client)".to_owned(),
    }
}

/// Groups projects by client: headings of named clients first, sorted by
/// name ignoring case, then "(no client)"; headings that sort equal keep
/// the order in which they first appear. Within a group, projects keep their order.
#[verifier::spinoff_prover]
pub fn group_by_client(projects: &[Project]) -> (r: Vec<ClientGroup>)
    ensures
        ({
            let keys = first_clients(projects@, projects@.len() as int);
            exists|order: Seq<usize>|
                {
                    &&& is_permutation(order, keys.len() as int)
                    &&& r@.len() == keys.len()
                    &&& forall|i: int|
                        0 <= i < r@.len() ==> (#[trigger] r@[i]).client@ == keys[order[i] as int]
                            && r@[i].projects@ == members(
                            projects@,
                            keys[order[i] as int],
                            projects@.len() as int,
                        )
                    &&& forall|i: int, j: int|
                        0 <= i < j < r@.len() ==> client_le(
                            (#[trigger] r@[i]).client@,
                            (#[trigger] r@[j]).client@,
                        )
                    &&& forall|i: int, j: int|
                        #![trigger order[i], order[j]]
                        0 <= i < j < r@.len() && client_le(r@[j].client@, r@[i].client@) ==> order[i]
                            < order[j]
                }
        }),
{
    let mut names: Vec<String> = Vec::new();
    let mut groups: Vec<Vec<Project>> = Vec::new();
    let mut k: usize = 0;
    while k < projects.len()
        invariant
            k <= projects@.len(),
            names@.len() == groups@.len() == first_clients(projects@, k as int).len(),
            forall|g: int|
                0 <= g < names@.len() ==> (#[trigger] names@[g])@ == first_clients(projects@, k as int)[g]
                    && groups@[g]@ == members(projects@, first_clients(projects@, k as int)[g], k as int),
        decreases projects@.len() - k,
    {
        let p = &projects[k];
        let key = client_key_exec(p);
        let key_chars = chars_of(key.as_str());
        let ghost fk = first_clients(projects@, k as int);
        let ghost kk = client_key(projects@[k as int]);
        let mut g: usize = 0;
        while g < names.len() && !chars_eq(chars_of(names[g].as_str()).as_slice(), key_chars.as_slice())
            invariant
                g <= names@.len(),
                key_chars@ == kk,
                forall|h: int| 0 <= h < g ==> (#[trigger] names@[h])@ != kk,
            decreases names@.len() - g,
        {
            g = g + 1;
        }
        proof {
            lemma_first_clients_distinct(projects@, k as int);
        }
        if g < names.len() {
            proof {
                assert(fk.contains(kk));
                assert(first_clients(projects@, k + 1) == fk);
            }
            let ghost old_groups = groups@;
            let mut members_g = groups.remove(g);
            members_g.push(p.clone());
            groups.insert(g, members_g);
            proof {
                assert(names@[g as int]@ == kk);
                assert forall|h: int| 0 <= h < names@.len() implies groups@[h]@ == members(
                    projects@,
                    fk[h],
                    k + 1,
                ) by {
                    assert(names@[h]@ == fk[h]);
                    if h != g {
                        assert(fk[h] != fk[g as int]);
                        assert(groups@[h] == old_groups[h]);
                    } else {
                        assert(groups@[h]@ == old_groups[h]@.push(projects@[k as int]));
                    }
                }
            }
        } else {
            proof {
                assert(!fk.contains(kk)) by {
                    if fk.contains(kk) {
                        let h = choose|h: int| 0 <= h < fk.len() && #[trigger] fk[h] == kk;
                        assert(names@[h]@ == kk);
                    }
                }
                assert(first_clients(projects@, k + 1) == fk.push(kk));
                lemma_absent_client_empty(projects@, kk, k as int);
            }
            names.push(key);
            let mut members_g: Vec<Project> = Vec::new();
            members_g.push(p.clone());
            groups.push(members_g);
            proof {
                assert forall|h: int| 0 <= h < names@.len() implies (#[trigger] names@[h])@
                    == first_clients(projects@, k + 1)[h] && groups@[h]@ == members(
                    projects@,
                    first_clients(projects@, k + 1)[h],
                    k + 1,
                ) by {
                    if h < fk.len() {
                        assert(fk[h] != kk);
                    } else {
                        assert(members(projects@, kk, k + 1) =~= seq![projects@[k as int]]);
                    }
                }
            }
        }
        k = k + 1;
    }
    let mut sort_keys: Vec<FlagThenText> = Vec::new();
    let mut i: usize = 0;
    while i < names.len()
        invariant
            i <= names@.len(),
            sort_keys@.len() == i,
            forall|j: int|
                0 <= j < i ==> (#[trigger] sort_keys@[j]).flag == (names@[j]@ == no_client())
                    && sort_keys@[j].text@ == lowercase(names@[j]@),
        decreases names@.len() - i,
    {
        let is_none = crate::text::str_is(names[i].as_str(), "(no client)");
        let l = to_lowercase(names[i].as_str());
        sort_keys.push(FlagThenText { flag: is_none, text: chars_of(l.as_str()) });
        i = i + 1;
    }
    let order = stable_sort(sort_keys.as_slice());
    let mut out: Vec<ClientGroup> = Vec::new();
    let mut m: usize = 0;
    while m < order.len()
        invariant
            m <= order@.len(),
            is_permutation(order@, names@.len() as int),
            names@.len() == groups@.len(),
            out@.len() == m,
            forall|j: int|
                0 <= j < m ==> (#[trigger] out@[j]).client == names@[order@[j] as int] && out@[j].projects@
                    == groups@[order@[j] as int]@,
        decreases order@.len() - m,
    {
        let g = order[m];
        let mut copy: Vec<Project> = Vec::new();
        let mut c: usize = 0;
        while c < groups[g].len()
            invariant
                g < groups@.len(),
                c <= groups@[g as int]@.len(),
                copy@ == groups@[g as int]@.take(c as int),
            decreases groups@[g as int]@.len() - c,
        {
            copy.push(groups[g][c].clone());
            assert(copy@ =~= groups@[g as int]@.take(c + 1));
            c = c + 1;
        }
        assert(copy@ =~= groups@[g as int]@);
        out.push(ClientGroup { client: names[g].clone(), projects: copy });
        m = m + 1;
    }
    proof {
        let keys_all = first_clients(projects@, projects@.len() as int);
        let o = order@;
        assert forall|i: int, j: int| 0 <= i < j < out@.len() implies client_le(
            (#[trigger] out@[i]).client@,
            (#[trigger] out@[j]).client@,
        ) by {
            assert(sort_keys@[o[i] as int].le(&sort_keys@[o[j] as int]));
        }
        assert forall|i: int, j: int|
            #![trigger o[i], o[j]]
            0 <= i < j < out@.len() && client_le(out@[j].client@, out@[i].client@) implies o[i] < o[j] by {
            assert(sort_keys@[o[j] as int].le(&sort_keys@[o[i] as int]));
        }
        assert forall|i: int| 0 <= i < out@.len() implies (#[trigger] out@[i]).client@ == keys_all[o[i] as int]
            && out@[i].projects@ == members(projects@, keys_all[o[i] as int], projects@.len() as int) by {
            let g = o[i] as int;
            assert(names@[g]@ == keys_all[g]);
        }
    }
    out
}

/// The notes printed after a project in the list: whether it is the
/// default project (`default_id`), not billable, archived.
pub fn project_flags(p: &Project, default_id: Option<&str>) -> (r: Vec<&'static str>)
    ensures
        r@.len() <= 3,
        r@.map_values(|f: &'static str| f@) == (if default_id matches Some(d) && d@ == p.id@ {
            seq!["default"@]
        } else {
            Seq::empty()
        }) + (if !p.billable {
            seq!["not billable"@]
        } else {
            Seq::empty()
        }) + (if p.archived {
            seq!["archived"@]
        } else {
            Seq::empty()
        }),
{
    let mut flags: Vec<&'static str> = Vec::new();
    let is_default = match default_id {
        Some(d) => crate::text::str_is(p.id.as_str(), d),
        None => false,
    };
    if is_default {
        flags.push("default");
    }
    if !p.billable {
        flags.push("not billable");
    }
    if p.archived {
        flags.push("archived");
    }
    proof {
        assert(flags@.map_values(|f: &'static str| f@) =~= (if is_default {
            seq!["default"@]
        } else {
            Seq::empty()
        }) + (if !p.billable {
            seq!["not billable"@]
        } else {
            Seq::empty()
        }) + (if p.archived {
            seq!["archived"@]
        } else {
            Seq::empty()
        }));
    }
    flags
}

} // verus!
