//! The set of known channels: sorted, without repeats, grown by merging.
use vstd::prelude::*;
use crate::order::{compare_names, lemma_lt_asymmetric, lemma_lt_irreflexive,
    lemma_lt_transitive, name_lt, strictly_sorted, NameOrder};

verus! {

/// The names held by a list of strings.
pub open spec fn names_of(v: Seq<String>) -> Seq<Seq<char>> {
    v.map_values(|s: String| s@)
}

/// `merged` is the sorted list, without repeats, of every name in `existing` or `incoming`.
pub open spec fn is_merge_of(
    existing: Seq<Seq<char>>,
    incoming: Seq<Seq<char>>,
    merged: Seq<Seq<char>>,
) -> bool {
    &&& strictly_sorted(merged)
    &&& forall|n: Seq<char>| #[trigger]
        merged.contains(n) <==> (existing.contains(n) || incoming.contains(n))
}

proof fn lemma_contains_push(s: Seq<Seq<char>>, x: Seq<char>)
    ensures
        forall|n: Seq<char>| #[trigger] s.push(x).contains(n) <==> (s.contains(n) || n == x),
{
    assert forall|n: Seq<char>| #[trigger] s.push(x).contains(n) <==> (s.contains(n) || n == x) by {
        if s.push(x).contains(n) {
            let m = choose|m: int| 0 <= m < s.len() + 1 && s.push(x)[m] == n;
            if m < s.len() {
                assert(s[m] == n);
            }
        }
        if s.contains(n) {
            let m = choose|m: int| 0 <= m < s.len() && s[m] == n;
            assert(s.push(x)[m] == n);
        }
        if n == x {
            assert(s.push(x)[s.len() as int] == n);
        }
    }
}

proof fn lemma_sorted_no_duplicates(s: Seq<Seq<char>>)
    requires
        strictly_sorted(s),
    ensures
        s.no_duplicates(),
{
    assert forall|i: int, j: int| 0 <= i < s.len() && 0 <= j < s.len() && i != j implies s[i]
        != s[j] by {
        if i < j {
            lemma_lt_irreflexive(s[i]);
        } else {
            lemma_lt_irreflexive(s[j]);
        }
    }
}

/// Two sorted lists without repeats that hold the same names are the same list.
pub proof fn lemma_sorted_unique(s: Seq<Seq<char>>, t: Seq<Seq<char>>)
    requires
        strictly_sorted(s),
        strictly_sorted(t),
        forall|n: Seq<char>| s.contains(n) <==> t.contains(n),
    ensures
        s == t,
    decreases s.len(),
{
    if s.len() == 0 {
        if t.len() > 0 {
            assert(t.contains(t[0]));
        }
        assert(s =~= t);
    } else {
        assert(s.contains(s[0]));
        assert(t.len() > 0);
        assert(t.contains(t[0]));
        let js = choose|j: int| 0 <= j < s.len() && s[j] == t[0];
        let jt = choose|j: int| 0 <= j < t.len() && t[j] == s[0];
        if js > 0 && jt > 0 {
            lemma_lt_asymmetric(s[0], t[0]);
        }
        if js > 0 && jt == 0 {
            lemma_lt_irreflexive(s[0]);
        }
        if jt > 0 && js == 0 {
            lemma_lt_irreflexive(t[0]);
        }
        assert(s[0] == t[0]);
        let s1 = s.drop_first();
        let t1 = t.drop_first();
        assert forall|n: Seq<char>| s1.contains(n) <==> t1.contains(n) by {
            if s1.contains(n) {
                let k = choose|k: int| 0 <= k < s1.len() && s1[k] == n;
                assert(s[k + 1] == n);
                assert(name_lt(s[0], s[k + 1]));
                lemma_lt_irreflexive(n);
                assert(s.contains(n));
                let m = choose|m: int| 0 <= m < t.len() && t[m] == n;
                assert(m != 0);
                assert(t1[m - 1] == n);
            }
            if t1.contains(n) {
                let k = choose|k: int| 0 <= k < t1.len() && t1[k] == n;
                assert(t[k + 1] == n);
                assert(name_lt(t[0], t[k + 1]));
                lemma_lt_irreflexive(n);
                assert(t.contains(n));
                let m = choose|m: int| 0 <= m < s.len() && s[m] == n;
                assert(m != 0);
                assert(s1[m - 1] == n);
            }
        }
        lemma_sorted_unique(s1, t1);
        assert(s =~= seq![s[0]] + s1);
        assert(t =~= seq![t[0]] + t1);
    }
}

/// A merge has one possible result: the merged list is a function of its inputs.
pub proof fn lemma_merge_deterministic(
    existing: Seq<Seq<char>>,
    incoming: Seq<Seq<char>>,
    m1: Seq<Seq<char>>,
    m2: Seq<Seq<char>>,
)
    requires
        is_merge_of(existing, incoming, m1),
        is_merge_of(existing, incoming, m2),
    ensures
        m1 == m2,
{
    assert forall|n: Seq<char>| m1.contains(n) <==> m2.contains(n) by {
        assert(m1.contains(n) <==> (existing.contains(n) || incoming.contains(n)));
        assert(m2.contains(n) <==> (existing.contains(n) || incoming.contains(n)));
    }
    lemma_sorted_unique(m1, m2);
}

/// Merging the same incoming names a second time changes nothing.
pub proof fn lemma_merge_idempotent(
    existing: Seq<Seq<char>>,
    incoming: Seq<Seq<char>>,
    once: Seq<Seq<char>>,
    twice: Seq<Seq<char>>,
)
    requires
        is_merge_of(existing, incoming, once),
        is_merge_of(once, incoming, twice),
    ensures
        twice == once,
{
    assert forall|n: Seq<char>| twice.contains(n) <==> once.contains(n) by {
        assert(twice.contains(n) <==> (once.contains(n) || incoming.contains(n)));
        assert(once.contains(n) <==> (existing.contains(n) || incoming.contains(n)));
    }
    lemma_sorted_unique(twice, once);
}

proof fn lemma_push_sorted(s: Seq<Seq<char>>, x: Seq<char>)
    requires
        strictly_sorted(s),
        s.len() > 0 ==> name_lt(s.last(), x),
    ensures
        strictly_sorted(s.push(x)),
{
    let t = s.push(x);
    assert forall|i: int, j: int| 0 <= i < j < t.len() implies name_lt(
        #[trigger] t[i],
        #[trigger] t[j],
    ) by {
        if j == s.len() && i < s.len() - 1 {
            lemma_lt_transitive(s[i], s.last(), x);
        }
    }
}

proof fn lemma_contains_split(s: Seq<Seq<char>>, lo: int, mid: int, hi: int)
    requires
        0 <= lo <= mid <= hi <= s.len(),
    ensures
        forall|n: Seq<char>| #[trigger]
            s.subrange(lo, hi).contains(n) <==> (s.subrange(lo, mid).contains(n) || s.subrange(
                mid,
                hi,
            ).contains(n)),
{
    assert forall|n: Seq<char>| #[trigger]
        s.subrange(lo, hi).contains(n) <==> (s.subrange(lo, mid).contains(n) || s.subrange(
            mid,
            hi,
        ).contains(n)) by {
        if s.subrange(lo, hi).contains(n) {
            let k = choose|k: int| 0 <= k < hi - lo && s.subrange(lo, hi)[k] == n;
            if k < mid - lo {
                assert(s.subrange(lo, mid)[k] == n);
            } else {
                assert(s.subrange(mid, hi)[k - (mid - lo)] == n);
            }
        }
        if s.subrange(lo, mid).contains(n) {
            let k = choose|k: int| 0 <= k < mid - lo && s.subrange(lo, mid)[k] == n;
            assert(s.subrange(lo, hi)[k] == n);
        }
        if s.subrange(mid, hi).contains(n) {
            let k = choose|k: int| 0 <= k < hi - mid && s.subrange(mid, hi)[k] == n;
            assert(s.subrange(lo, hi)[k + (mid - lo)] == n);
        }
    }
}

/// The union of two sorted lists without repeats, itself sorted without repeats.
fn union_sorted(a: &Vec<String>, b: &Vec<String>) -> (r: Vec<String>)
    requires
        strictly_sorted(names_of(a@)),
        strictly_sorted(names_of(b@)),
    ensures
        strictly_sorted(names_of(r@)),
        forall|n: Seq<char>| #[trigger]
            names_of(r@).contains(n) <==> (names_of(a@).contains(n) || names_of(b@).contains(n)),
{
    let ghost sa = names_of(a@);
    let ghost sb = names_of(b@);
    let mut out: Vec<String> = Vec::new();
    let mut i: usize = 0;
    let mut j: usize = 0;
    assert(names_of(out@) =~= Seq::<Seq<char>>::empty());
    assert(sa.subrange(0, 0) =~= Seq::<Seq<char>>::empty());
    assert(sb.subrange(0, 0) =~= Seq::<Seq<char>>::empty());
    while i < a.len() || j < b.len()
        invariant
            sa == names_of(a@),
            sb == names_of(b@),
            strictly_sorted(sa),
            strictly_sorted(sb),
            i <= a.len(),
            j <= b.len(),
            strictly_sorted(names_of(out@)),
            forall|n: Seq<char>| #[trigger]
                names_of(out@).contains(n) <==> (sa.subrange(0, i as int).contains(n)
                    || sb.subrange(0, j as int).contains(n)),
            out@.len() > 0 && i < a.len() ==> name_lt(names_of(out@).last(), sa[i as int]),
            out@.len() > 0 && j < b.len() ==> name_lt(names_of(out@).last(), sb[j as int]),
        decreases a.len() + b.len() - i - j,
    {
        let mut take_a = i < a.len();
        let mut take_b = j < b.len();
        if take_a && take_b {
            match compare_names(a[i].as_str(), b[j].as_str()) {
                NameOrder::Less => {
                    take_b = false;
                },
                NameOrder::Equal => {},
                NameOrder::Greater => {
                    take_a = false;
                },
            }
        }
        let ghost prev = names_of(out@);
        let ghost x = if take_a { sa[i as int] } else { sb[j as int] };
        proof {
            lemma_push_sorted(prev, x);
            lemma_contains_push(prev, x);
            lemma_contains_push(sa.subrange(0, i as int), sa[i as int]);
            lemma_contains_push(sb.subrange(0, j as int), sb[j as int]);
            if take_a && i + 1 < a.len() {
                assert(name_lt(sa[i as int], sa[i + 1]));
            }
            if take_b && j + 1 < b.len() {
                assert(name_lt(sb[j as int], sb[j + 1]));
            }
        }
        if take_a {
            out.push(a[i].clone());
        } else {
            out.push(b[j].clone());
        }
        assert(names_of(out@) =~= prev.push(x));
        if take_a {
            assert(sa.subrange(0, i + 1) =~= sa.subrange(0, i as int).push(sa[i as int]));
            i = i + 1;
        }
        if take_b {
            assert(sb.subrange(0, j + 1) =~= sb.subrange(0, j as int).push(sb[j as int]));
            j = j + 1;
        }
    }
    assert(sa.subrange(0, sa.len() as int) =~= sa);
    assert(sb.subrange(0, sb.len() as int) =~= sb);
    out
}

/// The names of `v[lo..hi]`, sorted without repeats: a merge sort that drops repeats
/// as it merges.
fn sort_unique(v: &Vec<String>, lo: usize, hi: usize) -> (r: Vec<String>)
    requires
        lo <= hi <= v@.len(),
    ensures
        strictly_sorted(names_of(r@)),
        forall|n: Seq<char>| #[trigger]
            names_of(r@).contains(n) <==> names_of(v@).subrange(lo as int, hi as int).contains(n),
    decreases hi - lo,
{
    let ghost s = names_of(v@);
    if hi == lo {
        let r: Vec<String> = Vec::new();
        assert(names_of(r@) =~= Seq::<Seq<char>>::empty());
        assert(s.subrange(lo as int, hi as int) =~= Seq::<Seq<char>>::empty());
        r
    } else if hi - lo == 1 {
        let mut r: Vec<String> = Vec::new();
        r.push(v[lo].clone());
        assert(names_of(r@) =~= s.subrange(lo as int, hi as int));
        r
    } else {
        let mid = lo + (hi - lo) / 2;
        let left = sort_unique(v, lo, mid);
        let right = sort_unique(v, mid, hi);
        proof {
            lemma_contains_split(s, lo as int, mid as int, hi as int);
        }
        union_sorted(&left, &right)
    }
}

/// Merges `incoming` into `existing`: the result is every name of either, sorted byte-wise,
/// each once. Also returns how many names are new, i.e. the result's length less the number
/// of distinct names in `existing`.
pub fn merge(existing: &Vec<String>, incoming: &Vec<String>) -> (r: (Vec<String>, usize))
    ensures
        is_merge_of(names_of(existing@), names_of(incoming@), names_of(r.0@)),
        r.1 == r.0@.len() - names_of(existing@).to_set().len(),
        strictly_sorted(names_of(existing@)) ==> r.1 == r.0@.len() - existing@.len(),
{
    let ghost ex = names_of(existing@);
    let ghost inc = names_of(incoming@);
    let old_names = sort_unique(existing, 0, existing.len());
    let new_names = sort_unique(incoming, 0, incoming.len());
    assert(ex.subrange(0, ex.len() as int) =~= ex);
    assert(inc.subrange(0, inc.len() as int) =~= inc);
    let out = union_sorted(&old_names, &new_names);
    proof {
        let so = names_of(old_names@);
        let sm = names_of(out@);
        lemma_sorted_no_duplicates(so);
        lemma_sorted_no_duplicates(sm);
        so.unique_seq_to_set();
        sm.unique_seq_to_set();
        assert(so.to_set() =~= ex.to_set());
        assert(so.to_set().subset_of(sm.to_set()));
        vstd::seq_lib::seq_to_set_is_finite(sm);
        vstd::set_lib::lemma_len_subset(so.to_set(), sm.to_set());
        if strictly_sorted(ex) {
            lemma_sorted_no_duplicates(ex);
            ex.unique_seq_to_set();
        }
    }
    let added = out.len() - old_names.len();
    (out, added)
}

} // verus!
