//! Stable sorting by a key, as `slice::sort_by_key` and `sort_by` do it:
//! ascending by the key, and items with equal keys keep their order.

use vstd::prelude::*;

verus! {

/// Keys with a total preorder.
pub trait Ordered: Sized {
    spec fn le(&self, other: &Self) -> bool;

    proof fn le_total(a: &Self, b: &Self)
        ensures
            a.le(b) || b.le(a),
    ;

    proof fn le_trans(a: &Self, b: &Self, c: &Self)
        requires
            a.le(b),
            b.le(c),
        ensures
            a.le(c),
    ;

    fn le_exec(&self, other: &Self) -> (r: bool)
        ensures
            r == self.le(other),
    ;
}

/// `order` lists each position of `keys` exactly once.
pub open spec fn is_permutation(order: Seq<usize>, n: int) -> bool {
    &&& order.len() == n
    &&& forall|i: int| 0 <= i < order.len() ==> order[i] < n
    &&& forall|i: int, j: int| #![trigger order[i], order[j]] 0 <= i < j < order.len() ==> order[i] != order[j]
}

/// The sum of a sequence of integers.
pub open spec fn seq_sum(s: Seq<int>) -> int
    decreases s.len(),
{
    if s.len() == 0 {
        0
    } else {
        seq_sum(s.drop_last()) + s.last()
    }
}

/// Taking one element out of a sequence takes its value out of the sum.
pub proof fn lemma_sum_remove(s: Seq<int>, v: int)
    requires
        0 <= v < s.len(),
    ensures
        seq_sum(s) == seq_sum(s.remove(v)) + s[v],
    decreases s.len(),
{
    if v == s.len() - 1 {
        assert(s.remove(v) =~= s.drop_last());
    } else {
        lemma_sum_remove(s.drop_last(), v);
        assert(s.remove(v).drop_last() =~= s.drop_last().remove(v));
        assert(s.remove(v).last() == s.last());
    }
}

/// Visiting the elements of `f` in the order of a permutation leaves their
/// sum unchanged.
pub proof fn lemma_sum_permuted(f: Seq<int>, order: Seq<usize>)
    requires
        is_permutation(order, f.len() as int),
    ensures
        seq_sum(Seq::new(order.len(), |g: int| f[order[g] as int])) == seq_sum(f),
    decreases f.len(),
{
    let n = f.len() as int;
    let permuted = Seq::new(order.len(), |g: int| f[order[g] as int]);
    if n == 0 {
        assert(permuted.len() == 0);
    } else {
        let v = order[n - 1];
        let rest = order.drop_last();
        let shrunk = f.remove(v as int);
        let renamed = rest.map_values(|x: usize| if x > v { (x - 1) as usize } else { x });
        assert forall|i: int| 0 <= i < rest.len() implies rest[i] != v && rest[i] < n by {
            assert(order[i] != order[n - 1]);
        }
        assert forall|i: int, j: int| #![trigger renamed[i], renamed[j]]
            0 <= i < j < renamed.len() implies renamed[i] != renamed[j] by {
            assert(order[i] != order[j]);
            assert(rest[i] != v && rest[j] != v);
        }
        assert(is_permutation(renamed, n - 1));
        lemma_sum_permuted(shrunk, renamed);
        let inner = Seq::new(renamed.len(), |g: int| shrunk[renamed[g] as int]);
        assert(inner =~= permuted.drop_last()) by {
            assert forall|g: int| 0 <= g < inner.len() implies inner[g] == permuted.drop_last()[g] by {
                assert(rest[g] != v);
            }
        }
        lemma_sum_remove(f, v as int);
    }
}

/// Following `order`, the keys ascend, and equal keys keep their original order.
pub open spec fn sorts_stably<K: Ordered>(keys: Seq<K>, order: Seq<usize>) -> bool {
    &&& forall|i: int, j: int|
        #![trigger order[i], order[j]]
        0 <= i < j < order.len() ==> keys[order[i] as int].le(&keys[order[j] as int])
    &&& forall|i: int, j: int|
        #![trigger order[i], order[j]]
        0 <= i < j < order.len() && keys[order[j] as int].le(&keys[order[i] as int]) ==> order[i]
            < order[j]
}

/// The order in which the positions of `keys` are visited when sorted stably.
#[verifier::spinoff_prover]
pub fn stable_sort<K: Ordered>(keys: &[K]) -> (order: Vec<usize>)
    ensures
        is_permutation(order@, keys@.len() as int),
        sorts_stably(keys@, order@),
{
    let mut order: Vec<usize> = Vec::new();
    let mut m: usize = 0;
    while m < keys.len()
        invariant
            m <= keys@.len(),
            is_permutation(order@, m as int),
            sorts_stably(keys@, order@),
        decreases keys@.len() - m,
    {
        let mut p: usize = 0;
        while p < order.len()
            invariant
                m < keys@.len(),
                is_permutation(order@, m as int),
                p <= order@.len(),
                forall|i: int| 0 <= i < p ==> (#[trigger] keys@[order@[i] as int]).le(&keys@[m as int]),
            ensures
                p <= order@.len(),
                forall|i: int| 0 <= i < p ==> (#[trigger] keys@[order@[i] as int]).le(&keys@[m as int]),
                p < order@.len() ==> !keys@[order@[p as int] as int].le(&keys@[m as int]),
            decreases order@.len() - p,
        {
            if !keys[order[p]].le_exec(&keys[m]) {
                break;
            }
            p = p + 1;
        }
        let ghost old_order = order@;
        proof {
            if p < old_order.len() {
                K::le_total(&keys@[old_order[p as int] as int], &keys@[m as int]);
            }
        }
        order.insert(p, m);
        proof {
            let o = order@;
            assert forall|i: int, j: int|
                #![trigger o[i], o[j]]
                0 <= i < j < o.len() implies keys@[o[i] as int].le(&keys@[o[j] as int]) by {
                if j < p {
                    assert(o[i] == old_order[i] && o[j] == old_order[j]);
                } else if j == p {
                    assert(o[i] == old_order[i]);
                } else if i == p {
                    assert(o[j] == old_order[j - 1]);
                    if j - 1 > p {
                        K::le_trans(&keys@[m as int], &keys@[old_order[p as int] as int], &keys@[old_order[j - 1] as int]);
                    }
                } else if i < p {
                    assert(o[i] == old_order[i] && o[j] == old_order[j - 1]);
                } else {
                    assert(o[i] == old_order[i - 1] && o[j] == old_order[j - 1]);
                }
            }
            assert forall|i: int, j: int|
                #![trigger o[i], o[j]]
                0 <= i < j < o.len() && keys@[o[j] as int].le(&keys@[o[i] as int]) implies o[i] < o[j] by {
                if j < p {
                    assert(o[i] == old_order[i] && o[j] == old_order[j]);
                } else if j == p {
                    assert(o[i] == old_order[i]);
                } else if i == p {
                    assert(o[j] == old_order[j - 1]);
                    let kp = keys@[old_order[p as int] as int];
                    let kj = keys@[old_order[j - 1] as int];
                    if j - 1 > p {
                        K::le_trans(&kp, &kj, &keys@[m as int]);
                    }
                } else if i < p {
                    assert(o[i] == old_order[i] && o[j] == old_order[j - 1]);
                } else {
                    assert(o[i] == old_order[i - 1] && o[j] == old_order[j - 1]);
                }
            }
            assert forall|i: int, j: int|
                #![trigger o[i], o[j]]
                0 <= i < j < o.len() implies o[i] != o[j] by {
                if i < p && j < p {
                    assert(o[i] == old_order[i] && o[j] == old_order[j]);
                } else if i < p && j > p {
                    assert(o[i] == old_order[i] && o[j] == old_order[j - 1]);
                } else if i > p {
                    assert(o[i] == old_order[i - 1] && o[j] == old_order[j - 1]);
                }
            }
        }
        m = m + 1;
    }
    order
}

/// Keys ordered by a signed count, largest first.
pub struct Largest(pub i64);

impl Ordered for Largest {
    open spec fn le(&self, other: &Self) -> bool {
        self.0 >= other.0
    }

    proof fn le_total(a: &Self, b: &Self) {
    }

    proof fn le_trans(a: &Self, b: &Self, c: &Self) {
    }

    fn le_exec(&self, other: &Self) -> (r: bool) {
        self.0 >= other.0
    }
}

/// Lexicographic order of character sequences, by code point (the order of
/// their UTF-8 bytes, which is how `String`s compare).
pub open spec fn lex_le(a: Seq<char>, b: Seq<char>) -> bool
    decreases a.len(),
{
    if a.len() == 0 {
        true
    } else if b.len() == 0 {
        false
    } else if (a[0] as u32) < (b[0] as u32) {
        true
    } else if (a[0] as u32) > (b[0] as u32) {
        false
    } else {
        lex_le(a.drop_first(), b.drop_first())
    }
}

pub proof fn lemma_lex_total(a: Seq<char>, b: Seq<char>)
    ensures
        lex_le(a, b) || lex_le(b, a),
    decreases a.len(),
{
    if a.len() > 0 && b.len() > 0 && (a[0] as u32) == (b[0] as u32) {
        lemma_lex_total(a.drop_first(), b.drop_first());
    }
}

pub proof fn lemma_lex_trans(a: Seq<char>, b: Seq<char>, c: Seq<char>)
    requires
        lex_le(a, b),
        lex_le(b, c),
    ensures
        lex_le(a, c),
    decreases a.len(),
{
    if a.len() > 0 && b.len() > 0 && c.len() > 0 && (a[0] as u32) == (b[0] as u32) && (b[0] as u32)
        == (c[0] as u32) {
        lemma_lex_trans(a.drop_first(), b.drop_first(), c.drop_first());
    }
}

/// Compares two character sequences lexicographically.
pub fn lex_le_exec(a: &[char], b: &[char]) -> (r: bool)
    ensures
        r == lex_le(a@, b@),
{
    let mut i: usize = 0;
    assert(a@.skip(0) =~= a@);
    assert(b@.skip(0) =~= b@);
    while i < a.len() && i < b.len()
        invariant
            i <= a@.len(),
            i <= b@.len(),
            lex_le(a@, b@) == lex_le(a@.skip(i as int), b@.skip(i as int)),
        decreases a@.len() - i,
    {
        if (a[i] as u32) < (b[i] as u32) {
            return true;
        }
        if (a[i] as u32) > (b[i] as u32) {
            return false;
        }
        assert(a@.skip(i as int).drop_first() =~= a@.skip(i + 1));
        assert(b@.skip(i as int).drop_first() =~= b@.skip(i + 1));
        i = i + 1;
    }
    i == a.len()
}

/// Keys ordered by a flag (false first), then lexicographically by text.
pub struct FlagThenText {
    pub flag: bool,
    pub text: Vec<char>,
}

impl Ordered for FlagThenText {
    open spec fn le(&self, other: &Self) -> bool {
        (!self.flag && other.flag) || (self.flag == other.flag && lex_le(self.text@, other.text@))
    }

    proof fn le_total(a: &Self, b: &Self) {
        lemma_lex_total(a.text@, b.text@);
    }

    proof fn le_trans(a: &Self, b: &Self, c: &Self) {
        if a.flag == b.flag && b.flag == c.flag {
            lemma_lex_trans(a.text@, b.text@, c.text@);
        }
    }

    fn le_exec(&self, other: &Self) -> (r: bool) {
        (!self.flag && other.flag) || (self.flag == other.flag && lex_le_exec(
            self.text.as_slice(),
            other.text.as_slice(),
        ))
    }
}

/// Keys ordered lexicographically by a first text, then by a second.
pub struct TextThenText {
    pub first: Vec<char>,
    pub second: Vec<char>,
}

/// `a` comes no later than `b` ordered by `(a1, a2)` against `(b1, b2)`.
pub open spec fn pair_le(a1: Seq<char>, a2: Seq<char>, b1: Seq<char>, b2: Seq<char>) -> bool {
    lex_le(a1, b1) && (!lex_le(b1, a1) || lex_le(a2, b2))
}

impl Ordered for TextThenText {
    open spec fn le(&self, other: &Self) -> bool {
        pair_le(self.first@, self.second@, other.first@, other.second@)
    }

    proof fn le_total(a: &Self, b: &Self) {
        lemma_lex_total(a.first@, b.first@);
        lemma_lex_total(a.second@, b.second@);
    }

    proof fn le_trans(a: &Self, b: &Self, c: &Self) {
        lemma_lex_trans(a.first@, b.first@, c.first@);
        if lex_le(c.first@, a.first@) {
            lemma_lex_trans(c.first@, a.first@, b.first@);
            lemma_lex_trans(b.first@, c.first@, a.first@);
            lemma_lex_trans(a.second@, b.second@, c.second@);
        }
    }

    fn le_exec(&self, other: &Self) -> (r: bool) {
        lex_le_exec(self.first.as_slice(), other.first.as_slice()) && (!lex_le_exec(
            other.first.as_slice(),
            self.first.as_slice(),
        ) || lex_le_exec(self.second.as_slice(), other.second.as_slice()))
    }
}

} // verus!
