//! The order of texts by character code, as `String`'s `Ord` orders them
//! (UTF-8 bytes compare in the order of the code points they encode), and
//! sorted lists without repeats.

use vstd::prelude::*;
use crate::text::chars_of;

verus! {

/// `a` comes strictly before `b` in lexicographic order of character codes.
pub open spec fn text_lt(a: Seq<char>, b: Seq<char>) -> bool
    decreases a.len(),
{
    if a.len() == 0 {
        b.len() > 0
    } else if b.len() == 0 {
        false
    } else if a[0] != b[0] {
        a[0] < b[0]
    } else {
        text_lt(a.drop_first(), b.drop_first())
    }
}

/// Each text comes strictly before every later one.
pub open spec fn strictly_sorted(s: Seq<String>) -> bool {
    forall|i: int, j: int| 0 <= i < j < s.len() ==> text_lt(#[trigger] s[i]@, #[trigger] s[j]@)
}

/// Some text of `s` reads `t`.
pub open spec fn has_text(s: Seq<String>, t: Seq<char>) -> bool {
    exists|k: int| 0 <= k < s.len() && #[trigger] s[k]@ == t
}

pub proof fn lemma_text_lt_irreflexive(a: Seq<char>)
    ensures
        !text_lt(a, a),
    decreases a.len(),
{
    if a.len() > 0 {
        lemma_text_lt_irreflexive(a.drop_first());
    }
}

pub proof fn lemma_text_lt_transitive(a: Seq<char>, b: Seq<char>, c: Seq<char>)
    requires
        text_lt(a, b),
        text_lt(b, c),
    ensures
        text_lt(a, c),
    decreases a.len(),
{
    if a.len() > 0 && b.len() > 0 && c.len() > 0 && a[0] == b[0] && b[0] == c[0] {
        lemma_text_lt_transitive(a.drop_first(), b.drop_first(), c.drop_first());
    }
}

pub proof fn lemma_text_lt_total(a: Seq<char>, b: Seq<char>)
    requires
        a != b,
    ensures
        text_lt(a, b) || text_lt(b, a),
    decreases a.len(),
{
    if a.len() == 0 && b.len() == 0 {
        assert(a =~= b);
    } else if a.len() > 0 && b.len() > 0 && a[0] != b[0] {
    } else if a.len() > 0 && b.len() > 0 && a[0] == b[0] {
        if a.drop_first() == b.drop_first() {
            assert(a =~= seq![a[0]] + a.drop_first());
            assert(b =~= seq![b[0]] + b.drop_first());
        }
        lemma_text_lt_total(a.drop_first(), b.drop_first());
    }
}

pub proof fn lemma_text_lt_asymmetric(a: Seq<char>, b: Seq<char>)
    requires
        text_lt(a, b),
    ensures
        !text_lt(b, a),
{
    if text_lt(b, a) {
        lemma_text_lt_transitive(a, b, a);
        lemma_text_lt_irreflexive(a);
    }
}

/// Whether `a` comes strictly before `b`.
pub fn text_less(a: &str, b: &str) -> (r: bool)
    ensures
        r == text_lt(a@, b@),
{
    let x = chars_of(a);
    let y = chars_of(b);
    let mut i: usize = 0;
    assert(x@.skip(0) =~= x@);
    assert(y@.skip(0) =~= y@);
    while i < x.len() && i < y.len() && x[i] == y[i]
        invariant
            x@ == a@,
            y@ == b@,
            i <= x.len(),
            i <= y.len(),
            text_lt(a@, b@) == text_lt(x@.skip(i as int), y@.skip(i as int)),
        decreases x.len() - i,
    {
        assert(x@.skip(i as int).drop_first() =~= x@.skip(i + 1));
        assert(y@.skip(i as int).drop_first() =~= y@.skip(i + 1));
        i = i + 1;
    }
    if i == x.len() {
        i < y.len()
    } else if i == y.len() {
        false
    } else {
        x[i] < y[i]
    }
}

/// Whether one of `seen` reads `key`.
pub fn contains_text(seen: &Vec<String>, key: &String) -> (r: bool)
    ensures
        r == has_text(seen@, key@),
{
    let mut i: usize = 0;
    while i < seen.len()
        invariant
            i <= seen.len(),
            forall|k: int| 0 <= k < i ==> #[trigger] seen@[k]@ != key@,
        decreases seen.len() - i,
    {
        if seen[i] == *key {
            return true;
        }
        i = i + 1;
    }
    false
}

/// Adds `x` to a strictly sorted list unless a text equal to it is there.
fn insert_sorted_unique(out: &mut Vec<String>, x: String)
    requires
        strictly_sorted(old(out)@),
    ensures
        strictly_sorted(final(out)@),
        has_text(final(out)@, x@),
        forall|j: int| 0 <= j < old(out)@.len() ==> has_text(final(out)@, #[trigger] old(out)@[j]@),
        forall|k: int|
            0 <= k < final(out)@.len() ==> #[trigger] final(out)@[k]@ == x@ || has_text(
                old(out)@,
                final(out)@[k]@,
            ),
{
    let n = out.len();
    let mut p: usize = 0;
    while p < n && text_less(out[p].as_str(), x.as_str())
        invariant
            n == out.len(),
            p <= n,
            forall|k: int| 0 <= k < p ==> text_lt(#[trigger] out@[k]@, x@),
        decreases n - p,
    {
        p = p + 1;
    }
    if p < n && out[p] == x {
        assert(out@[p as int]@ == x@);
        assert(forall|j: int| 0 <= j < out@.len() ==> has_text(out@, #[trigger] out@[j]@));
        return;
    }
    let ghost before = out@;
    proof {
        if p < n {
            lemma_text_lt_total(before[p as int]@, x@);
            assert(text_lt(x@, before[p as int]@));
            assert forall|j: int| p < j < n implies text_lt(x@, #[trigger] before[j]@) by {
                lemma_text_lt_transitive(x@, before[p as int]@, before[j]@);
            }
        }
    }
    out.insert(p, x);
    proof {
        let after = out@;
        assert(after =~= before.insert(p as int, after[p as int]));
        assert forall|i: int, j: int| 0 <= i < j < after.len() implies text_lt(
            #[trigger] after[i]@,
            #[trigger] after[j]@,
        ) by {
            if j < p {
            } else if j == p {
            } else if i < p {
                assert(after[j] == before[j - 1]);
                if j - 1 >= p {
                    lemma_text_lt_transitive(after[i]@, after[p as int]@, after[j]@);
                }
            } else if i == p {
                assert(after[j] == before[j - 1]);
            } else {
                assert(after[i] == before[i - 1]);
                assert(after[j] == before[j - 1]);
            }
        }
        assert(after[p as int]@ == x@);
        assert forall|j: int| 0 <= j < before.len() implies has_text(after, #[trigger] before[j]@) by {
            if j < p {
                assert(after[j] == before[j]);
            } else {
                assert(after[j + 1] == before[j]);
            }
        }
        assert forall|k: int| 0 <= k < after.len() implies #[trigger] after[k]@ == x@ || has_text(
            before,
            after[k]@,
        ) by {
            if k < p {
                assert(after[k] == before[k]);
            } else if k > p {
                assert(after[k] == before[k - 1]);
            }
        }
    }
}

/// The texts of `items`, each once, in increasing order.
pub fn sorted_unique(items: Vec<String>) -> (r: Vec<String>)
    ensures
        strictly_sorted(r@),
        forall|j: int| 0 <= j < items@.len() ==> has_text(r@, #[trigger] items@[j]@),
        forall|k: int| 0 <= k < r@.len() ==> has_text(items@, #[trigger] r@[k]@),
{
    let mut out: Vec<String> = Vec::new();
    let mut i: usize = 0;
    while i < items.len()
        invariant
            i <= items.len(),
            strictly_sorted(out@),
            forall|j: int| 0 <= j < i ==> has_text(out@, #[trigger] items@[j]@),
            forall|k: int| 0 <= k < out@.len() ==> has_text(items@, #[trigger] out@[k]@),
        decreases items.len() - i,
    {
        let ghost prev = out@;
        let x = items[i].clone();
        insert_sorted_unique(&mut out, x);
        proof {
            assert forall|j: int| 0 <= j < i + 1 implies has_text(out@, #[trigger] items@[j]@) by {
                if j < i {
                    let k = choose|k: int| 0 <= k < prev.len() && #[trigger] prev[k]@ == items@[j]@;
                    assert(has_text(out@, prev[k]@));
                }
            }
            assert forall|k: int| 0 <= k < out@.len() implies has_text(items@, #[trigger] out@[k]@) by {
                if out@[k]@ == items@[i as int]@ {
                } else {
                    let m = choose|m: int| 0 <= m < prev.len() && #[trigger] prev[m]@ == out@[k]@;
                    assert(has_text(items@, prev[m]@));
                }
            }
        }
        i = i + 1;
    }
    out
}

} // verus!
